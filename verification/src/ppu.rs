//! The picture processor: palette memory, scroll registers, register ports
//! and the per-dot pipeline.

use crate::mapper::{
    lemma_mapper_read_after_write, mapper_keeps, mapper_maps, mapper_value, mapper_written,
    palette_index, palette_maps, palette_written,
    read_outcome, write_outcome, AddressSpace, BusError, Mapper, MappingView,
};
use crate::common::Clocked;
use crate::serialization::{blob_at, blob_bytes, get_blob, put_blob, LoadError};
use vstd::prelude::*;

verus! {

/// The 32 bytes of palette memory at `$3F00..=$3F1F`, in which the four
/// sprite backdrop entries share their cells with the background ones.
pub struct PaletteControl {
    memory: Vec<u8>,
}

impl View for PaletteControl {
    type V = Seq<u8>;

    closed spec fn view(&self) -> Seq<u8> {
        self.memory@
    }
}

impl PaletteControl {
    /// A palette memory of 32 zero bytes.
    pub fn new() -> (r: PaletteControl)
        ensures
            r@ == Seq::new(32, |i: int| 0u8),
    {
        let mut memory: Vec<u8> = Vec::new();
        let mut i: usize = 0;
        while i < 32
            invariant
                i <= 32,
                memory@ == Seq::new(i as nat, |j: int| 0u8),
            decreases 32 - i,
        {
            memory.push(0);
            i = i + 1;
        }
        PaletteControl { memory }
    }

    /// Appends the bytes that stand for the palette in a saved state.
    pub fn save(&self, out: &mut Vec<u8>)
        ensures
            final(out)@ == old(out)@ + blob_bytes(self@),
    {
        put_blob(out, &self.memory);
    }

    /// Builds the palette that `input` holds at `at`.
    pub fn load(input: &[u8], at: usize) -> (r: Result<(PaletteControl, usize), LoadError>)
        requires
            at <= input@.len(),
        ensures
            match blob_at(input@, at as int) {
                Ok((bs, next)) => r is Ok && r->Ok_0.0@ == bs && r->Ok_0.1 == next && next
                    <= input@.len(),
                Err(e) => r == Err::<(PaletteControl, usize), LoadError>(e),
            },
    {
        match get_blob(input, at) {
            Ok((bs, next)) => Ok((PaletteControl { memory: bs }, next)),
            Err(e) => Err(e),
        }
    }

    /// The cell that `ptr` names, for `ptr` in `$3F00..=$3F1F`.
    fn map_ptr(ptr: u16) -> (r: usize)
        requires
            0x3f00 <= ptr <= 0x3f1f,
        ensures
            r == palette_index(ptr),
            r < 32,
    {
        let remapped: u16 = if ptr == 0x3f10 {
            0x3f00
        } else if ptr == 0x3f14 {
            0x3f04
        } else if ptr == 0x3f18 {
            0x3f08
        } else if ptr == 0x3f1c {
            0x3f0c
        } else {
            ptr
        };
        (remapped - 0x3f00) as usize
    }

    /// The byte in the cell that `ptr` names.
    pub fn read(&self, ptr: u16) -> (r: Result<u8, BusError>)
        ensures
            r == read_outcome(palette_maps(self@, ptr), self@[palette_index(ptr)]),
    {
        if ptr < 0x3f00 || ptr > 0x3f1f {
            return Err(BusError::UnmappedRead);
        }
        let i = Self::map_ptr(ptr);
        if i < self.memory.len() {
            Ok(self.memory[i])
        } else {
            Err(BusError::UnmappedRead)
        }
    }

    /// Stores `v` in the cell that `ptr` names.
    pub fn write(&mut self, ptr: u16, v: u8) -> (r: Result<(), BusError>)
        ensures
            r == write_outcome(palette_maps(old(self)@, ptr)),
            final(self)@ == palette_written(old(self)@, ptr, v),
    {
        if ptr < 0x3f00 || ptr > 0x3f1f {
            return Err(BusError::UnmappedWrite);
        }
        let i = Self::map_ptr(ptr);
        if i < self.memory.len() {
            self.memory[i] = v;
            Ok(())
        } else {
            Err(BusError::UnmappedWrite)
        }
    }
}

impl AddressSpace for PaletteControl {
    open spec fn maps(v: Seq<u8>, ptr: u16) -> bool {
        palette_maps(v, ptr)
    }

    open spec fn value_at(v: Seq<u8>, ptr: u16) -> u8 {
        v[palette_index(ptr)]
    }

    open spec fn after_peek(v: Seq<u8>, ptr: u16) -> Seq<u8> {
        v
    }

    open spec fn after_poke(v: Seq<u8>, ptr: u16, value: u8) -> Seq<u8> {
        palette_written(v, ptr, value)
    }

    fn peek(&mut self, ptr: u16) -> (r: Result<u8, BusError>) {
        self.read(ptr)
    }

    fn poke(&mut self, ptr: u16, v: u8) -> (r: Result<(), BusError>) {
        self.write(ptr, v)
    }
}


/// The first nametable.
pub const ADDRESS_NAMETABLE0: u16 = 0x2000;

/// The attribute table of the first nametable.
pub const ADDRESS_ATTRIBUTE_TABLE0: u16 = 0x23C0;

/// The colour shown where neither background nor sprite is opaque.
pub const ADDRESS_UNIVERSAL_BACKGROUND_COLOR: u16 = 0x3f00;

/// The first background palette.
pub const ADDRESS_BACKGROUND_PALETTE0: u16 = 0x3f00;

pub const SCANLINE_PRERENDER: u16 = 261;

pub const SCANLINE_POSTRENDER: u16 = 240;

pub const SCANLINE_VBLANK: u16 = 241;

pub const RENDER_WIDTH: usize = 256;

pub const RENDER_HEIGHT: usize = 240;

/// The number of pixels of a frame.
pub const UNRENDER_SIZE: usize = 61440;

/// The number of bytes of a frame with three bytes per pixel.
pub const RENDER_SIZE: usize = 184320;

/// The scroll registers and the flags of the mask register.
///
/// `v` and `t` are laid out as `yyy NN YYYYY XXXXX`: fine Y, nametable
/// select, coarse Y, coarse X.
#[derive(Copy, Clone, Debug, PartialEq, Eq, Structural)]
pub struct PpuRegisters {
    /// The current VRAM address (15 bits).
    pub v: u16,
    /// The address of the top-left tile on screen (15 bits).
    pub t: u16,
    /// Fine X scroll (3 bits).
    pub x: u8,
    /// The toggle between the first and second write to `$2005` and `$2006`.
    pub w: bool,
    /// Whether the VRAM address advances by 32 rather than by 1.
    pub vram_increment: bool,
    pub is_greyscale: bool,
    pub background_enabled: bool,
    pub sprites_enabled: bool,
    pub emphasize_red: bool,
    pub emphasize_green: bool,
    pub emphasize_blue: bool,
    pub show_leftmost_background: bool,
    pub show_leftmost_sprite: bool,
}

/// The bits of `v` that hold the vertical position: fine Y, the vertical
/// nametable bit and coarse Y.
pub const VERTICAL_BITS: u16 = 0x7BE0;

/// The bits of `v` that hold the horizontal position: the horizontal
/// nametable bit and coarse X.
pub const HORIZONTAL_BITS: u16 = 0x041F;

/// `v` with the bits under `mask` taken from `t`.
pub open spec fn copied_bits(v: u16, t: u16, mask: u16) -> u16 {
    (v & !mask) | (t & mask)
}

/// `v` after coarse X was incremented: from 31 it wraps to 0 and the
/// horizontal nametable bit flips.
pub open spec fn coarse_x_incremented(v: u16) -> u16 {
    if (v & 0x001F) == 31 {
        (v & !0x001Fu16) ^ 0x0400
    } else {
        ((v + 1) as u16) & 0x7FFF
    }
}

/// `v` after fine Y was incremented: from 7 it wraps to 0 and carries into
/// coarse Y, which wraps from 29 to 0 with a flip of the vertical nametable
/// bit, and from 31 to 0 without one.
pub open spec fn fine_y_incremented(v: u16) -> u16 {
    if (v & 0x7000) != 0x7000 {
        (v + 0x1000) as u16
    } else {
        let cleared = v & !0x7000u16;
        let y = (cleared & 0x03e0) >> 5;
        if y == 29 {
            ((cleared ^ 0x0800) & !0x03E0u16) | (0u16 << 5)
        } else if y == 31 {
            (cleared & !0x03E0u16) | (0u16 << 5)
        } else {
            (cleared & !0x03E0u16) | (((y + 1) as u16) << 5)
        }
    }
}

/// `t` after a write of `px` to the control register: bits 10 and 11 take
/// the nametable select.
pub open spec fn control_written(t: u16, px: u8) -> u16 {
    (t & !0x0C00u16) | (((px as u16) & 0x3) << 10)
}

/// The registers after a write of `px` to the scroll register: the first
/// write sets coarse X and fine X, the second coarse Y and fine Y.
pub open spec fn scroll_written(r: PpuRegisters, px: u8) -> PpuRegisters {
    if !r.w {
        PpuRegisters { t: (r.t & !0x1Fu16) | ((px as u16) >> 3), x: px & 0x7, w: true, ..r }
    } else {
        PpuRegisters {
            t: ((r.t & !0x73E0u16) | ((((px as u16) >> 3) & 0x1F) << 5)) | (((px as u16) & 0x7)
                << 12),
            w: false,
            ..r
        }
    }
}

/// The registers after a write of `x` to the address register: the first
/// write sets bits 8 to 13 of `t` and clears bit 14, the second sets the
/// low byte and copies `t` to `v`.
pub open spec fn address_written(r: PpuRegisters, x: u8) -> PpuRegisters {
    if !r.w {
        PpuRegisters { t: (r.t & 0x00FF) | (((x & 0x3F) as u16) << 8), w: true, ..r }
    } else {
        PpuRegisters {
            t: (r.t & 0xFF00) | (x as u16),
            v: (r.t & 0xFF00) | (x as u16),
            w: false,
            ..r
        }
    }
}

/// The flags of the mask register as a write of `v` sets them.
pub open spec fn mask_written(r: PpuRegisters, v: u8) -> PpuRegisters {
    PpuRegisters {
        is_greyscale: v % 2 == 1,
        show_leftmost_background: (v / 2) % 2 == 1,
        show_leftmost_sprite: (v / 4) % 2 == 1,
        background_enabled: (v / 8) % 2 == 1,
        sprites_enabled: (v / 16) % 2 == 1,
        emphasize_red: (v / 32) % 2 == 1,
        emphasize_green: (v / 64) % 2 == 1,
        emphasize_blue: v >= 128,
        ..r
    }
}

/// `v` after an access through the data register: advanced by 1 or by 32,
/// within the 14 bits of the address space.
pub open spec fn vram_advanced(v: u16, by_32: bool) -> u16 {
    v.wrapping_add(if by_32 { 32u16 } else { 1u16 }) & 0x3FFF
}

/// The screen line that `v` names: coarse Y times eight plus fine Y.
pub open spec fn scanline_of(v: u16) -> u16 {
    ((v & 0x03E0) >> 2) | ((v & 0x7000) >> 12)
}

/// The address of the attribute byte for the tile `v` names.
pub open spec fn attribute_address_of(v: u16) -> u16 {
    ((ADDRESS_ATTRIBUTE_TABLE0 | (v & 0x0c00)) | ((v >> 4) & 0x38)) | ((v >> 2) & 0x07)
}

/// The fields of a scroll register stay within their widths, and the
/// increments of fine Y and coarse X do not leave sixteen bits.
pub proof fn lemma_scroll_fields(v: u16)
    by (bit_vector)
    ensures
        ((v >> 12) & 0x7) < 8,
        (v & 0x1F) < 32,
        ((v & 0x03E0) >> 5) < 32,
        (v & 0x001F) != 31 ==> v < 0xFFFF,
        (v & 0x7000) != 0x7000 ==> v <= 0xEFFF,
{
}

impl PpuRegisters {
    /// The registers at power-on: all clear.
    pub fn new() -> (r: PpuRegisters)
        ensures
            r == (PpuRegisters {
                v: 0,
                t: 0,
                x: 0,
                w: false,
                vram_increment: false,
                is_greyscale: false,
                background_enabled: false,
                sprites_enabled: false,
                emphasize_red: false,
                emphasize_green: false,
                emphasize_blue: false,
                show_leftmost_background: false,
                show_leftmost_sprite: false,
            }),
    {
        PpuRegisters {
            v: 0,
            t: 0,
            x: 0,
            w: false,
            vram_increment: false,
            is_greyscale: false,
            background_enabled: false,
            sprites_enabled: false,
            emphasize_red: false,
            emphasize_green: false,
            emphasize_blue: false,
            show_leftmost_background: false,
            show_leftmost_sprite: false,
        }
    }

    /// Copies the vertical bits of `t` into `v`.
    pub fn copy_y(&mut self)
        ensures
            *final(self) == (PpuRegisters {
                v: copied_bits(old(self).v, old(self).t, VERTICAL_BITS),
                ..*old(self)
            }),
    {
        self.v = (self.v & !VERTICAL_BITS) | (self.t & VERTICAL_BITS);
    }

    /// Copies the horizontal bits of `t` into `v`.
    pub fn copy_x(&mut self)
        ensures
            *final(self) == (PpuRegisters {
                v: copied_bits(old(self).v, old(self).t, HORIZONTAL_BITS),
                ..*old(self)
            }),
    {
        self.v = (self.v & !HORIZONTAL_BITS) | (self.t & HORIZONTAL_BITS);
    }

    /// Copies the horizontal bits of `t` into `v`.
    pub fn reset_horizontal_position(&mut self)
        ensures
            *final(self) == (PpuRegisters {
                v: copied_bits(old(self).v, old(self).t, HORIZONTAL_BITS),
                ..*old(self)
            }),
    {
        self.copy_x();
    }

    /// Moves `v` one tile to the right.
    pub fn increment_x(&mut self)
        ensures
            *final(self) == (PpuRegisters { v: coarse_x_incremented(old(self).v), ..*old(self) }),
    {
        let v = self.v;
        if (v & 0x001F) == 31 {
            self.v = (v & !0x001Fu16) ^ 0x0400;
        } else {
            proof {
                lemma_scroll_fields(v);
            }
            self.v = (v + 1) & 0x7FFF;
        }
    }

    /// The screen line that `v` names.
    pub fn scanline(&self) -> (y: u16)
        ensures
            y == scanline_of(self.v),
    {
        ((self.v & 0x03E0) >> 2) | ((self.v & 0x7000) >> 12)
    }

    /// Moves `v` one pixel row down.
    pub fn increment_y(&mut self)
        ensures
            *final(self) == (PpuRegisters { v: fine_y_incremented(old(self).v), ..*old(self) }),
    {
        let v = self.v;
        if (v & 0x7000) != 0x7000 {
            proof {
                lemma_scroll_fields(v);
            }
            self.v = v + 0x1000;
        } else {
            let cleared = v & !0x7000u16;
            let y: u16 = (cleared & 0x03e0) >> 5;
            proof {
                lemma_scroll_fields(cleared);
            }
            if y == 29 {
                self.v = ((cleared ^ 0x0800) & !0x03E0u16) | (0u16 << 5);
            } else if y == 31 {
                self.v = (cleared & !0x03E0u16) | (0u16 << 5);
            } else {
                self.v = (cleared & !0x03E0u16) | ((y + 1) << 5);
            }
        }
    }

    /// Takes the nametable select and the address increment from a write
    /// to the control register.
    pub fn write_control(&mut self, px: u8)
        ensures
            *final(self) == (PpuRegisters {
                t: control_written(old(self).t, px),
                vram_increment: (px / 4) % 2 == 1,
                ..*old(self)
            }),
    {
        self.t = (self.t & !0x0C00u16) | (((px as u16) & 0x3) << 10);
        self.vram_increment = (px / 4) % 2 == 1;
    }

    /// Takes the flags of the mask register from a write to it.
    pub fn write_mask(&mut self, v: u8)
        ensures
            *final(self) == mask_written(*old(self), v),
    {
        self.is_greyscale = v % 2 == 1;
        self.show_leftmost_background = (v / 2) % 2 == 1;
        self.show_leftmost_sprite = (v / 4) % 2 == 1;
        self.background_enabled = (v / 8) % 2 == 1;
        self.sprites_enabled = (v / 16) % 2 == 1;
        self.emphasize_red = (v / 32) % 2 == 1;
        self.emphasize_green = (v / 64) % 2 == 1;
        self.emphasize_blue = v >= 128;
    }

    /// A read of the status register clears the write toggle.
    pub fn read_status(&mut self)
        ensures
            *final(self) == (PpuRegisters { w: false, ..*old(self) }),
    {
        self.w = false;
    }

    /// Takes a write to the scroll register.
    pub fn write_scroll(&mut self, px: u8)
        ensures
            *final(self) == scroll_written(*old(self), px),
    {
        let x = px as u16;
        if !self.w {
            self.t = (self.t & !0x1Fu16) | (x >> 3);
            self.x = px & 0x7;
        } else {
            self.t = ((self.t & !0x73E0u16) | (((x >> 3) & 0x1F) << 5)) | ((x & 0x7) << 12);
        }
        self.w = !self.w;
    }

    /// Takes a write to the address register.
    pub fn write_address(&mut self, x: u8)
        ensures
            *final(self) == address_written(*old(self), x),
    {
        if !self.w {
            self.t = (self.t & 0x00FF) | (((x & 0x3F) as u16) << 8);
        } else {
            self.t = (self.t & 0xFF00) | (x as u16);
            self.v = self.t;
        }
        self.w = !self.w;
    }

    /// Whether rendering is enabled and `v` names a line that is rendered.
    pub fn is_rendering(&self) -> (r: bool)
        ensures
            r == ((self.sprites_enabled || self.background_enabled) && (scanline_of(self.v)
                == SCANLINE_PRERENDER || scanline_of(self.v) < SCANLINE_POSTRENDER)),
    {
        let scanline = self.scanline();
        self.is_rendering_enabled() && ((scanline == SCANLINE_PRERENDER) || scanline
            < SCANLINE_POSTRENDER)
    }

    /// Sets the current VRAM address.
    pub fn set_vram_ptr(&mut self, v: u16)
        ensures
            *final(self) == (PpuRegisters { v: v, ..*old(self) }),
    {
        self.v = v;
    }

    /// The current VRAM address.
    pub fn vram_ptr(&self) -> (r: u16)
        ensures
            r == self.v,
    {
        self.v
    }

    /// Whether sprites are drawn.
    pub fn is_sprites_enabled(&self) -> (r: bool)
        ensures
            r == self.sprites_enabled,
    {
        self.sprites_enabled
    }

    /// Whether the background is drawn.
    pub fn is_background_enabled(&self) -> (r: bool)
        ensures
            r == self.background_enabled,
    {
        self.background_enabled
    }

    /// Whether sprites or the background are drawn.
    pub fn is_rendering_enabled(&self) -> (r: bool)
        ensures
            r == (self.sprites_enabled || self.background_enabled),
    {
        self.sprites_enabled || self.background_enabled
    }

    /// Advances `v` after an access through the data register.
    pub fn advance_vram_ptr(&mut self)
        ensures
            *final(self) == (PpuRegisters {
                v: vram_advanced(old(self).v, old(self).vram_increment),
                ..*old(self)
            }),
    {
        let increment: u16 = if self.vram_increment {
            32
        } else {
            1
        };
        self.v = self.v.wrapping_add(increment) & 0x3FFF;
    }

    /// Fine X scroll.
    pub fn fine_x(&self) -> (r: u8)
        ensures
            r == self.x,
    {
        self.x
    }

    /// Bits 12 to 14 of `v`.
    pub fn fine_y(&self) -> (r: u8)
        ensures
            r == (self.v >> 12) & 0x7,
            r < 8,
    {
        let y = (self.v >> 12) & 0x7;
        proof {
            lemma_scroll_fields(self.v);
        }
        y as u8
    }

    /// Bits 0 to 4 of `v`.
    pub fn tile_x(&self) -> (r: u8)
        ensures
            r == self.v & 0x1F,
            r < 32,
    {
        let x = self.v & 0x1F;
        proof {
            lemma_scroll_fields(self.v);
        }
        x as u8
    }

    /// Bits 5 to 9 of `v`.
    pub fn tile_y(&self) -> (r: u8)
        ensures
            r == (self.v & 0x03E0) >> 5,
            r < 32,
    {
        let y = (self.v & 0x03E0) >> 5;
        proof {
            lemma_scroll_fields(self.v);
        }
        y as u8
    }

    /// The address of the nametable byte for the tile `v` names.
    pub fn tile_address(&self) -> (r: u16)
        ensures
            r == ADDRESS_NAMETABLE0 | (self.v & 0x0FFF),
    {
        ADDRESS_NAMETABLE0 | (self.v & 0x0FFF)
    }

    /// The address of the attribute byte for the tile `v` names.
    pub fn attribute_address(&self) -> (r: u16)
        ensures
            r == attribute_address_of(self.v),
    {
        let v = self.v;
        ((ADDRESS_ATTRIBUTE_TABLE0 | (v & 0x0c00)) | ((v >> 4) & 0x38)) | ((v >> 2) & 0x07)
    }
}


/// An index into palette memory: palette id times four plus the colour
/// within the palette. Colour zero of every palette is transparent.
#[derive(Copy, Clone, Debug, PartialEq, Eq, Structural)]
pub struct PaletteColor {
    pub color: u8,
}

impl PaletteColor {
    /// Colour `color` (taken modulo 4) of palette `palette` (taken modulo 8).
    pub fn new_from_parts(palette: u8, color: u8) -> (r: PaletteColor)
        ensures
            r.color == (palette % 8) * 4 + color % 4,
    {
        PaletteColor { color: (palette % 8) * 4 + color % 4 }
    }

    /// Where palette memory holds the colour.
    pub fn address(&self) -> (r: u16)
        ensures
            r == ADDRESS_BACKGROUND_PALETTE0 + self.color,
            r == ADDRESS_BACKGROUND_PALETTE0 + 4 * (self.color / 4) + self.color % 4,
    {
        ADDRESS_BACKGROUND_PALETTE0 + 4 * (self.palette() as u16) + (self.palette_color() as u16)
    }

    /// The palette of the colour.
    pub fn palette(&self) -> (r: u8)
        ensures
            r == self.color / 4,
    {
        self.color / 4
    }

    /// The colour within its palette.
    pub fn palette_color(&self) -> (r: u8)
        ensures
            r == self.color % 4,
    {
        self.color % 4
    }

    /// Whether the colour is colour zero of its palette.
    pub fn is_transparent(&self) -> (r: bool)
        ensures
            r == (self.color % 4 == 0),
    {
        self.palette_color() == 0
    }

    /// Whether the colour is not transparent.
    pub fn is_opaque(&self) -> (r: bool)
        ensures
            r == (self.color % 4 != 0),
    {
        !self.is_transparent()
    }
}

/// The two bit planes `a` and `b` interleaved: bits `2k + 1` and `2k` of
/// the result are bit `k` of `a` and bit `k` of `b`.
pub open spec fn interleaved(a: u8, b: u8) -> int {
    ((a / 128) % 2 * 2 + (b / 128) % 2) * 16384 + ((a / 64) % 2 * 2 + (b / 64) % 2) * 4096 + ((a
        / 32) % 2 * 2 + (b / 32) % 2) * 1024 + ((a / 16) % 2 * 2 + (b / 16) % 2) * 256 + ((a / 8)
        % 2 * 2 + (b / 8) % 2) * 64 + ((a / 4) % 2 * 2 + (b / 4) % 2) * 16 + ((a / 2) % 2 * 2 + (b
        / 2) % 2) * 4 + (a % 2 * 2 + b % 2)
}

/// The bits of `a` in reverse order: bit `k` of the result is bit `7 - k` of `a`.
pub open spec fn reversed(a: u8) -> int {
    (a / 128) % 2 + (a / 64) % 2 * 2 + (a / 32) % 2 * 4 + (a / 16) % 2 * 8 + (a / 8) % 2 * 16 + (a
        / 4) % 2 * 32 + (a / 2) % 2 * 64 + (a % 2) * 128
}

/// Interleaves two bit planes: `a = ABCDEFGH` and `b = 12345678` give
/// `A1B2C3D4E5F6G7H8`.
pub fn combine_bitplanes(a: u8, b: u8) -> (r: u16)
    ensures
        r == interleaved(a, b),
{
    let a = a as u16;
    let b = b as u16;
    ((a / 128) % 2 * 2 + (b / 128) % 2) * 16384 + ((a / 64) % 2 * 2 + (b / 64) % 2) * 4096 + ((a
        / 32) % 2 * 2 + (b / 32) % 2) * 1024 + ((a / 16) % 2 * 2 + (b / 16) % 2) * 256 + ((a / 8)
        % 2 * 2 + (b / 8) % 2) * 64 + ((a / 4) % 2 * 2 + (b / 4) % 2) * 16 + ((a / 2) % 2 * 2 + (b
        / 2) % 2) * 4 + (a % 2 * 2 + b % 2)
}

/// Reverses the order of the bits of a byte.
pub fn reverse_bits(a: u8) -> (r: u8)
    ensures
        r == reversed(a),
{
    (a / 128) % 2 + (a / 64) % 2 * 2 + (a / 32) % 2 * 4 + (a / 16) % 2 * 8 + (a / 8) % 2 * 16 + (a
        / 4) % 2 * 32 + (a / 2) % 2 * 64 + (a % 2) * 128
}

/// The two-bit colour of pixel `xsub` (0 is leftmost) in an interleaved pattern row.
pub open spec fn pattern_pixel(pattern: u16, xsub: int) -> u16 {
    if xsub == 0 {
        pattern / 16384
    } else if xsub == 1 {
        (pattern / 4096) % 4
    } else if xsub == 2 {
        (pattern / 1024) % 4
    } else if xsub == 3 {
        (pattern / 256) % 4
    } else if xsub == 4 {
        (pattern / 64) % 4
    } else if xsub == 5 {
        (pattern / 16) % 4
    } else if xsub == 6 {
        (pattern / 4) % 4
    } else {
        pattern % 4
    }
}

/// Computes [`pattern_pixel`].
pub fn pattern_pixel_at(pattern: u16, xsub: u8) -> (r: u8)
    requires
        xsub < 8,
    ensures
        r == pattern_pixel(pattern, xsub as int),
        r < 4,
{
    let q: u16 = if xsub == 0 {
        pattern / 16384
    } else if xsub == 1 {
        (pattern / 4096) % 4
    } else if xsub == 2 {
        (pattern / 1024) % 4
    } else if xsub == 3 {
        (pattern / 256) % 4
    } else if xsub == 4 {
        (pattern / 64) % 4
    } else if xsub == 5 {
        (pattern / 16) % 4
    } else if xsub == 6 {
        (pattern / 4) % 4
    } else {
        pattern % 4
    };
    q as u8
}

/// One entry of sprite memory.
#[derive(Copy, Clone, Debug, PartialEq, Eq, Structural)]
pub struct Sprite {
    pub index: u8,
    pub x: u8,
    pub y: u8,
    pub tile_index: u8,
    pub palette: u8,
    pub is_front: bool,
    pub flip_horizontal: bool,
    pub flip_vertical: bool,
}

/// A sprite as the pixel pipeline holds it for one scanline.
#[derive(Copy, Clone, Debug, PartialEq, Eq, Structural)]
pub struct SpriteSlot {
    /// The pattern row, two bits per pixel, leftmost pixel in the top bits.
    pub pattern: u16,
    pub palette: u8,
    pub x: u8,
    pub is_front: bool,
    /// The position of the sprite in sprite memory.
    pub index: u8,
}

/// Byte `i` of sprite memory; zero beyond its end.
pub open spec fn oam_byte(oam: Seq<u8>, i: int) -> u8 {
    if 0 <= i < oam.len() {
        oam[i]
    } else {
        0
    }
}

/// Sprite `i` as sprite memory describes it: bytes `4i` to `4i + 3` are
/// Y, tile, attributes and X; the attributes hold the palette in bits 0
/// and 1, behind-background in bit 5, the flips in bits 6 and 7.
pub open spec fn sprite_at(oam: Seq<u8>, i: int) -> Sprite {
    let attribute = oam_byte(oam, i * 4 + 2);
    Sprite {
        index: i as u8,
        y: oam_byte(oam, i * 4),
        tile_index: oam_byte(oam, i * 4 + 1),
        palette: (attribute % 4 + 4) as u8,
        is_front: (attribute / 32) % 2 == 0,
        flip_horizontal: (attribute / 64) % 2 == 1,
        flip_vertical: attribute >= 128,
        x: oam_byte(oam, i * 4 + 3),
    }
}

/// The palette that an attribute byte gives the tile at (`idx_x`, `idx_y`):
/// two bits for each quadrant of a four by four block of tiles.
pub open spec fn attribute_palette(entry: u8, idx_x: u8, idx_y: u8) -> u8 {
    let left = idx_x % 4 < 2;
    let top = idx_y % 4 < 2;
    if left && top {
        entry % 4
    } else if top {
        (entry / 4) % 4
    } else if left {
        (entry / 16) % 4
    } else {
        entry / 64
    }
}

/// Computes [`attribute_palette`].
pub fn split_attribute_entry(entry: u8, idx_x: u8, idx_y: u8) -> (r: u8)
    ensures
        r == attribute_palette(entry, idx_x, idx_y),
        r < 4,
{
    let left = idx_x % 4 < 2;
    let top = idx_y % 4 < 2;
    if left && top {
        entry % 4
    } else if top {
        (entry / 4) % 4
    } else if left {
        (entry / 16) % 4
    } else {
        entry / 64
    }
}

/// Where the low plane of row `ysub` of tile `tile_index` lies in the left
/// or right pattern table; the high plane lies eight bytes further.
pub open spec fn pattern_row_address(right_table: bool, tile_index: u8, ysub: u8) -> u16 {
    ((if right_table {
        0x1000int
    } else {
        0int
    }) + 16 * tile_index + ysub) as u16
}

/// The addresses of the two planes of a pattern row.
pub fn locate_pattern_row(right_table: bool, tile_index: u8, ysub: u8) -> (r: (u16, u16))
    ensures
        r.0 == pattern_row_address(right_table, tile_index, ysub),
        r.1 == r.0 + 8,
{
    let base: u16 = if right_table {
        0x1000
    } else {
        0
    };
    let ptr_tile: u16 = base + 16 * (tile_index as u16);
    let ptr_tile_row0 = ptr_tile + (ysub as u16);
    (ptr_tile_row0, ptr_tile_row0 + 8)
}

/// The row of a sprite of `height` rows with top `y` that the line
/// `scanline` crosses, counted from the top of the sprite as it is drawn;
/// none if the line misses the sprite.
pub open spec fn sprite_row(scanline: u16, y: u8, height: u8, flip_vertical: bool) -> Option<u8> {
    if scanline < y || scanline - y >= height {
        None
    } else if flip_vertical {
        Some((height - 1 - (scanline - y)) as u8)
    } else {
        Some((scanline - y) as u8)
    }
}

/// Computes [`sprite_row`].
pub fn find_sprite_row(scanline: u16, y: u8, height: u8, flip_vertical: bool) -> (r: Option<u8>)
    ensures
        r == sprite_row(scanline, y, height, flip_vertical),
        r is Some ==> r->0 < height,
{
    if scanline < y as u16 || scanline - y as u16 >= height as u16 {
        None
    } else if flip_vertical {
        Some((height as u16 - 1 - (scanline - y as u16)) as u8)
    } else {
        Some((scanline - y as u16) as u8)
    }
}

/// The RGB value of each of the 64 colours the video signal can name.
pub const SYSTEM_PALETTE: [(u8, u8, u8); 64] = [
    (124, 124, 124),
    (0, 0, 252),
    (0, 0, 188),
    (68, 40, 188),
    (148, 0, 132),
    (168, 0, 32),
    (168, 16, 0),
    (136, 20, 0),
    (80, 48, 0),
    (0, 120, 0),
    (0, 104, 0),
    (0, 88, 0),
    (0, 64, 88),
    (0, 0, 0),
    (0, 0, 0),
    (0, 0, 0),
    (188, 188, 188),
    (0, 120, 248),
    (0, 88, 248),
    (104, 68, 252),
    (216, 0, 204),
    (228, 0, 88),
    (248, 56, 0),
    (228, 92, 16),
    (172, 124, 0),
    (0, 184, 0),
    (0, 168, 0),
    (0, 168, 68),
    (0, 136, 136),
    (0, 0, 0),
    (0, 0, 0),
    (0, 0, 0),
    (248, 248, 248),
    (60, 188, 252),
    (104, 136, 252),
    (152, 120, 248),
    (248, 120, 248),
    (248, 88, 152),
    (248, 120, 88),
    (252, 160, 68),
    (248, 184, 0),
    (184, 248, 24),
    (88, 216, 84),
    (88, 248, 152),
    (0, 232, 216),
    (120, 120, 120),
    (0, 0, 0),
    (0, 0, 0),
    (252, 252, 252),
    (164, 228, 252),
    (184, 184, 248),
    (216, 184, 248),
    (248, 184, 248),
    (248, 164, 192),
    (240, 208, 176),
    (252, 224, 168),
    (248, 216, 120),
    (216, 248, 120),
    (184, 248, 184),
    (184, 248, 216),
    (0, 252, 252),
    (216, 216, 216),
    (0, 0, 0),
    (0, 0, 0),
];


/// The registers, flags, counters and fetch latches of the picture processor.
#[derive(Copy, Clone, Debug, PartialEq, Eq, Structural)]
pub struct PpuState {
    pub registers: PpuRegisters,
    /// Raised when the processor is owed a non-maskable interrupt.
    pub is_vblank_nmi: bool,
    pub is_scanline_irq: bool,
    /// Whether 8x8 sprites take their patterns from the right table.
    pub sprite_pattern_table: bool,
    /// Whether the background takes its patterns from the right table.
    pub background_pattern_table: bool,
    pub sprite_overflow: bool,
    pub sprite0_hit: bool,
    /// Whether sprites are 16 rows high rather than 8.
    pub sprite_size: bool,
    /// Toggled every frame; set on odd frames.
    pub frame_parity: bool,
    /// The last byte written to any register port.
    pub open_bus: u8,
    pub ppu_master_select: bool,
    pub generate_vblank_nmi: bool,
    pub ppudata_buffer: u8,
    pub oam_ptr: u8,
    pub clocks_until_nmi: u8,
    /// The VBlank flag.
    pub nmi_occurred: bool,
    pub frame: u32,
    pub scanline: u16,
    pub cycle: u16,
    pub tile_pattern_low_shift: u16,
    pub tile_pattern_high_shift: u16,
    pub tile_palette_shift: u16,
    pub tile_nametable: u8,
    pub tile_attribute: u8,
    pub tile_pattern_low: u8,
    pub tile_pattern_high: u8,
}

/// The picture processor: its state, the frame it draws (one palette entry
/// per pixel, row by row), sprite memory, the sprites found for the
/// current line, and its own bus.
pub struct Ppu {
    pub state: PpuState,
    pub display: Vec<u8>,
    pub oam: Vec<u8>,
    pub sprites: Vec<SpriteSlot>,
    pub mapper: Mapper,
}

/// The mathematical state of a [`Ppu`].
pub struct PpuView {
    pub state: PpuState,
    pub display: Seq<u8>,
    pub oam: Seq<u8>,
    pub sprites: Seq<SpriteSlot>,
    pub bus: Seq<MappingView>,
}

impl View for Ppu {
    type V = PpuView;

    open spec fn view(&self) -> PpuView {
        PpuView {
            state: self.state,
            display: self.display@,
            oam: self.oam@,
            sprites: self.sprites@,
            bus: self.mapper@,
        }
    }
}

/// The state of a picture processor at power-on.
pub open spec fn power_on_ppu() -> PpuState {
    PpuState {
        registers: PpuRegisters {
            v: 0,
            t: 0,
            x: 0,
            w: false,
            vram_increment: false,
            is_greyscale: false,
            background_enabled: false,
            sprites_enabled: false,
            emphasize_red: false,
            emphasize_green: false,
            emphasize_blue: false,
            show_leftmost_background: false,
            show_leftmost_sprite: false,
        },
        is_vblank_nmi: false,
        is_scanline_irq: false,
        sprite_pattern_table: false,
        background_pattern_table: false,
        sprite_overflow: false,
        sprite0_hit: false,
        sprite_size: false,
        frame_parity: false,
        open_bus: 0,
        ppu_master_select: false,
        generate_vblank_nmi: false,
        ppudata_buffer: 0,
        oam_ptr: 0,
        clocks_until_nmi: 0,
        nmi_occurred: false,
        frame: 0,
        scanline: 0,
        cycle: 0,
        tile_pattern_low_shift: 0,
        tile_pattern_high_shift: 0,
        tile_palette_shift: 0,
        tile_nametable: 0,
        tile_attribute: 0,
        tile_pattern_low: 0,
        tile_pattern_high: 0,
    }
}

/// Whether a picture processor holds a whole frame and a whole sprite
/// memory, at most eight sprites for the line, a position inside the
/// frame, and scroll registers of fifteen bits.
pub open spec fn ppu_wf(v: PpuView) -> bool {
    &&& v.display.len() == UNRENDER_SIZE
    &&& v.oam.len() == 256
    &&& v.sprites.len() <= 8
    &&& v.state.scanline <= 261
    &&& v.state.cycle <= 340
}

/// What the bus of the picture processor yields at `ptr`: the byte mapped
/// there, or, where nothing is mapped, the byte `open` that the data bus
/// still holds.
pub open spec fn ppu_read(bus: Seq<MappingView>, open: u8, ptr: u16) -> u8 {
    if mapper_maps(bus, ptr) {
        mapper_value(bus, ptr)
    } else {
        open
    }
}

/// The state with the VBlank flag set to `on`; the countdown to the
/// interrupt starts anew.
pub open spec fn vblank_set(s: PpuState, on: bool) -> PpuState {
    PpuState { nmi_occurred: on, clocks_until_nmi: 15, ..s }
}

/// The state after a write of `v` to the control register. When the VBlank
/// flag is up and the write turns the interrupt on, the interrupt is
/// raised at once.
pub open spec fn ppu_control_written(s: PpuState, v: u8) -> PpuState {
    PpuState {
        registers: PpuRegisters {
            t: control_written(s.registers.t, v),
            vram_increment: (v / 4) % 2 == 1,
            ..s.registers
        },
        sprite_pattern_table: (v / 8) % 2 == 1,
        background_pattern_table: (v / 16) % 2 == 1,
        sprite_size: (v / 32) % 2 == 1,
        ppu_master_select: (v / 64) % 2 == 1,
        generate_vblank_nmi: v >= 128,
        is_vblank_nmi: s.is_vblank_nmi || (!s.generate_vblank_nmi && v >= 128 && s.nmi_occurred),
        ..s
    }
}

/// The byte a read of the status register returns: the low five bits of
/// the open bus, sprite overflow in bit 5, sprite-0 hit in bit 6, VBlank in bit 7.
pub open spec fn status_value(s: PpuState) -> u8 {
    (s.open_bus % 32 + (if s.sprite_overflow {
        32int
    } else {
        0int
    }) + (if s.sprite0_hit {
        64int
    } else {
        0int
    }) + (if s.nmi_occurred {
        128int
    } else {
        0int
    })) as u8
}

/// The state after a read of the status register: VBlank and the write
/// toggle are cleared.
pub open spec fn status_read(s: PpuState) -> PpuState {
    PpuState { registers: PpuRegisters { w: false, ..s.registers }, ..vblank_set(s, false) }
}

/// The byte a read of the data register returns: below `$3F00` the byte
/// buffered by the read before, from `$3F00` on the byte at the address.
pub open spec fn data_value(v: PpuView) -> u8 {
    if v.state.registers.v < 0x3f00 {
        v.state.ppudata_buffer
    } else {
        ppu_read(v.bus, v.state.open_bus, v.state.registers.v)
    }
}

/// The state after a read of the data register: below `$3F00` the buffer
/// takes the byte at the address; the address advances.
pub open spec fn data_read(v: PpuView) -> PpuView {
    PpuView {
        state: PpuState {
            registers: PpuRegisters {
                v: vram_advanced(v.state.registers.v, v.state.registers.vram_increment),
                ..v.state.registers
            },
            ppudata_buffer: if v.state.registers.v < 0x3f00 {
                ppu_read(v.bus, v.state.open_bus, v.state.registers.v)
            } else {
                v.state.ppudata_buffer
            },
            ..v.state
        },
        ..v
    }
}

/// The state after a write of `value` to the data register: the bus takes
/// the byte at the address, and the address advances.
pub open spec fn data_written(v: PpuView, value: u8) -> PpuView {
    PpuView {
        state: PpuState {
            registers: PpuRegisters {
                v: vram_advanced(v.state.registers.v, v.state.registers.vram_increment),
                ..v.state.registers
            },
            ..v.state
        },
        bus: mapper_written(v.bus, v.state.registers.v, value),
        ..v
    }
}

/// Sprite memory after `value` was stored at `ptr`.
pub open spec fn oam_stored(oam: Seq<u8>, ptr: u8, value: u8) -> Seq<u8> {
    if ptr < oam.len() {
        oam.update(ptr as int, value)
    } else {
        oam
    }
}

/// The state after a write of `value` to the sprite data register: sprite
/// memory takes the byte at the sprite address, which then advances by one
/// within a byte.
pub open spec fn oam_data_written(v: PpuView, value: u8) -> PpuView {
    PpuView {
        state: PpuState { oam_ptr: ((v.state.oam_ptr + 1) % 256) as u8, ..v.state },
        oam: oam_stored(v.oam, v.state.oam_ptr, value),
        ..v
    }
}

/// A vector of `n` copies of `value`.
pub fn filled(n: usize, value: u8) -> (r: Vec<u8>)
    ensures
        r@ == Seq::new(n as nat, |i: int| value),
{
    let mut r: Vec<u8> = Vec::new();
    let mut i: usize = 0;
    while i < n
        invariant
            i <= n,
            r@ == Seq::new(i as nat, |j: int| value),
        decreases n - i,
    {
        r.push(value);
        i = i + 1;
    }
    r
}

impl Ppu {
    /// A picture processor at power-on: everything clear, a black frame,
    /// and a bus on which nothing is mapped yet.
    pub fn new() -> (r: Ppu)
        ensures
            r@ == (PpuView {
                state: power_on_ppu(),
                display: Seq::new(UNRENDER_SIZE as nat, |i: int| 0u8),
                oam: Seq::new(256, |i: int| 0u8),
                sprites: Seq::<SpriteSlot>::empty(),
                bus: Seq::<MappingView>::empty(),
            }),
            ppu_wf(r@),
    {
        Ppu {
            state: PpuState {
                registers: PpuRegisters::new(),
                is_vblank_nmi: false,
                is_scanline_irq: false,
                sprite_pattern_table: false,
                background_pattern_table: false,
                sprite_overflow: false,
                sprite0_hit: false,
                sprite_size: false,
                frame_parity: false,
                open_bus: 0,
                ppu_master_select: false,
                generate_vblank_nmi: false,
                ppudata_buffer: 0,
                oam_ptr: 0,
                clocks_until_nmi: 0,
                nmi_occurred: false,
                frame: 0,
                scanline: 0,
                cycle: 0,
                tile_pattern_low_shift: 0,
                tile_pattern_high_shift: 0,
                tile_palette_shift: 0,
                tile_nametable: 0,
                tile_attribute: 0,
                tile_pattern_low: 0,
                tile_pattern_high: 0,
            },
            display: filled(UNRENDER_SIZE, 0),
            oam: filled(256, 0),
            sprites: Vec::new(),
            mapper: Mapper::new(),
        }
    }

    /// The number of frames completed.
    pub fn current_frame(&self) -> (r: u32)
        ensures
            r == self@.state.frame,
    {
        self.state.frame
    }

    /// Reads the bus of the picture processor; where nothing is mapped,
    /// the data bus still holds the byte last driven on it.
    pub fn fetch(&self, ptr: u16) -> (r: u8)
        ensures
            r == ppu_read(self@.bus, self@.state.open_bus, ptr),
    {
        match self.mapper.read(ptr) {
            Ok(v) => v,
            Err(_) => self.state.open_bus,
        }
    }

    /// Sets or clears the VBlank flag.
    pub fn set_vblank(&mut self, new_vblank: bool)
        ensures
            final(self)@ == (PpuView { state: vblank_set(old(self)@.state, new_vblank), ..old(self)@ }),
    {
        self.state.nmi_occurred = new_vblank;
        self.state.clocks_until_nmi = 15;
    }

    /// Takes a write to the control register `$2000`.
    pub fn write_control(&mut self, v: u8)
        ensures
            final(self)@ == (PpuView {
                state: ppu_control_written(old(self)@.state, v),
                ..old(self)@
            }),
    {
        let was_on = self.state.generate_vblank_nmi;
        self.state.registers.write_control(v);
        self.state.sprite_pattern_table = (v / 8) % 2 == 1;
        self.state.background_pattern_table = (v / 16) % 2 == 1;
        self.state.sprite_size = (v / 32) % 2 == 1;
        self.state.ppu_master_select = (v / 64) % 2 == 1;
        self.state.generate_vblank_nmi = v >= 128;
        if !was_on && v >= 128 && self.state.nmi_occurred {
            self.state.is_vblank_nmi = true;
        }
    }

    /// Takes a write to the mask register `$2001`.
    pub fn write_mask(&mut self, v: u8)
        ensures
            final(self)@ == (PpuView {
                state: PpuState {
                    registers: mask_written(old(self)@.state.registers, v),
                    ..old(self)@.state
                },
                ..old(self)@
            }),
    {
        self.state.registers.write_mask(v);
    }

    /// Answers a read of the status register `$2002`.
    pub fn read_status(&mut self) -> (ret: u8)
        ensures
            ret == status_value(old(self)@.state),
            final(self)@ == (PpuView { state: status_read(old(self)@.state), ..old(self)@ }),
    {
        let mut ret: u8 = self.state.open_bus % 32;
        if self.state.sprite_overflow {
            ret = ret + 32;
        }
        if self.state.sprite0_hit {
            ret = ret + 64;
        }
        if self.state.nmi_occurred {
            ret = ret + 128;
        }
        self.set_vblank(false);
        self.state.registers.read_status();
        ret
    }

    /// Takes a write to the sprite address register `$2003`.
    pub fn write_oam_address(&mut self, v: u8)
        ensures
            final(self)@ == (PpuView {
                state: PpuState { oam_ptr: v, ..old(self)@.state },
                ..old(self)@
            }),
    {
        self.state.oam_ptr = v;
    }

    /// Answers a read of the sprite data register `$2004`: the byte of
    /// sprite memory at the sprite address, which stays where it is.
    pub fn read_oam_data(&mut self) -> (r: u8)
        ensures
            r == oam_byte(old(self)@.oam, old(self)@.state.oam_ptr as int),
            final(self)@ == old(self)@,
    {
        let ptr = self.state.oam_ptr as usize;
        if ptr < self.oam.len() {
            self.oam[ptr]
        } else {
            0
        }
    }

    /// Takes a write to the sprite data register `$2004`.
    pub fn write_oam_data(&mut self, v: u8)
        ensures
            final(self)@ == oam_data_written(old(self)@, v),
    {
        let ptr = self.state.oam_ptr as usize;
        if ptr < self.oam.len() {
            self.oam[ptr] = v;
        }
        self.state.oam_ptr = self.state.oam_ptr.wrapping_add(1);
    }

    /// Takes a write to the scroll register `$2005`.
    pub fn write_scroll(&mut self, v: u8)
        ensures
            final(self)@ == (PpuView {
                state: PpuState {
                    registers: scroll_written(old(self)@.state.registers, v),
                    ..old(self)@.state
                },
                ..old(self)@
            }),
    {
        self.state.registers.write_scroll(v);
    }

    /// Takes a write to the address register `$2006`.
    pub fn write_address(&mut self, v: u8)
        ensures
            final(self)@ == (PpuView {
                state: PpuState {
                    registers: address_written(old(self)@.state.registers, v),
                    ..old(self)@.state
                },
                ..old(self)@
            }),
    {
        self.state.registers.write_address(v);
    }

    /// Answers a read of the data register `$2007`.
    pub fn read_data(&mut self) -> (r: u8)
        ensures
            r == data_value(old(self)@),
            final(self)@ == data_read(old(self)@),
    {
        let ptr = self.state.registers.vram_ptr();
        self.state.registers.advance_vram_ptr();
        let val = self.fetch(ptr);
        if ptr < 0x3f00 {
            let old_val = self.state.ppudata_buffer;
            self.state.ppudata_buffer = val;
            old_val
        } else {
            val
        }
    }

    /// Takes a write to the data register `$2007`.
    pub fn write_data(&mut self, v: u8)
        ensures
            final(self)@ == data_written(old(self)@, v),
    {
        let ptr = self.state.registers.vram_ptr();
        self.state.registers.advance_vram_ptr();
        let _ = self.mapper.write(ptr, v);
    }

    /// The RGB value of a palette entry; entries are taken modulo 64.
    pub fn lookup_system_pixel(i: u8) -> (r: (u8, u8, u8))
        ensures
            r == SYSTEM_PALETTE[(i % 64) as int],
    {
        SYSTEM_PALETTE[(i % 64) as usize]
    }

    /// The frame with three bytes per pixel: red, green and blue of the
    /// palette entry of each pixel.
    pub fn render(&self) -> (ret: Vec<u8>)
        ensures
            ret@.len() == 3 * self@.display.len(),
            forall|i: int|
                0 <= i < self@.display.len() ==> {
                    &&& ret@[3 * i] == SYSTEM_PALETTE[(self@.display[i] % 64) as int].0
                    &&& ret@[3 * i + 1] == SYSTEM_PALETTE[(self@.display[i] % 64) as int].1
                    &&& ret@[3 * i + 2] == SYSTEM_PALETTE[(self@.display[i] % 64) as int].2
                },
    {
        let mut ret: Vec<u8> = Vec::new();
        let mut i: usize = 0;
        while i < self.display.len()
            invariant
                i <= self.display.len(),
                ret@.len() == 3 * i,
                forall|j: int|
                    0 <= j < i ==> {
                        &&& ret@[3 * j] == SYSTEM_PALETTE[(self.display@[j] % 64) as int].0
                        &&& ret@[3 * j + 1] == SYSTEM_PALETTE[(self.display@[j] % 64) as int].1
                        &&& ret@[3 * j + 2] == SYSTEM_PALETTE[(self.display@[j] % 64) as int].2
                    },
            decreases self.display.len() - i,
        {
            let c = self.display[i];
            let (r, g, b) = Self::lookup_system_pixel(c);
            ret.push(r);
            ret.push(g);
            ret.push(b);
            i = i + 1;
        }
        ret
    }
}

impl AddressSpace for Ppu {
    open spec fn maps(v: PpuView, ptr: u16) -> bool {
        mapper_maps(v.bus, ptr)
    }

    open spec fn value_at(v: PpuView, ptr: u16) -> u8 {
        mapper_value(v.bus, ptr)
    }

    open spec fn after_peek(v: PpuView, ptr: u16) -> PpuView {
        v
    }

    open spec fn after_poke(v: PpuView, ptr: u16, value: u8) -> PpuView {
        PpuView { bus: mapper_written(v.bus, ptr, value), ..v }
    }

    fn peek(&mut self, ptr: u16) -> (r: Result<u8, BusError>) {
        self.mapper.read(ptr)
    }

    fn poke(&mut self, ptr: u16, v: u8) -> (r: Result<(), BusError>) {
        self.mapper.write(ptr, v)
    }
}


/// The state with the countdown to the interrupt advanced by one dot: when
/// it runs out while the interrupt is enabled and VBlank still up, the
/// interrupt is raised.
pub open spec fn nmi_counted(s: PpuState) -> PpuState {
    if s.clocks_until_nmi > 0 {
        PpuState {
            clocks_until_nmi: (s.clocks_until_nmi - 1) as u8,
            is_vblank_nmi: s.is_vblank_nmi || (s.clocks_until_nmi == 1 && s.generate_vblank_nmi
                && s.nmi_occurred),
            ..s
        }
    } else {
        s
    }
}

/// Whether the dot after this one is the first of a new frame without the
/// last dot of the pre-render line having been stood on: on odd frames,
/// with rendering enabled, from dot 339 of the pre-render line.
pub open spec fn skips_dot(s: PpuState) -> bool {
    (s.registers.sprites_enabled || s.registers.background_enabled) && s.frame_parity && s.scanline
        == 261 && s.cycle == 339
}

/// The state with a new frame begun at dot 0 of line 0.
pub open spec fn frame_begun(s: PpuState) -> PpuState {
    PpuState {
        cycle: 0,
        scanline: 0,
        frame: s.frame.wrapping_add(1),
        frame_parity: !s.frame_parity,
        ..s
    }
}

/// The state with the position moved on by one dot: along the line, from
/// dot 340 to the next line, and from the pre-render line to a new frame.
pub open spec fn position_advanced(s: PpuState) -> PpuState {
    if skips_dot(s) {
        frame_begun(s)
    } else if s.cycle >= 340 {
        if s.scanline >= 261 {
            frame_begun(s)
        } else {
            PpuState { cycle: 0, scanline: (s.scanline + 1) as u16, ..s }
        }
    } else {
        PpuState { cycle: (s.cycle + 1) as u16, ..s }
    }
}

/// The state after the counters ticked for one dot.
pub open spec fn ticked(s: PpuState) -> PpuState {
    position_advanced(nmi_counted(s))
}

/// The state with the two pattern shifters moved left by one.
pub open spec fn shifted(s: PpuState) -> PpuState {
    PpuState {
        tile_pattern_low_shift: s.tile_pattern_low_shift << 1,
        tile_pattern_high_shift: s.tile_pattern_high_shift << 1,
        ..s
    }
}

/// The state with the fetch latches loaded into the shifters: the pattern
/// bytes into the low bytes of the pattern shifters, the palette of the
/// tile into the low two bits of the palette shifter.
pub open spec fn tile_loaded(s: PpuState) -> PpuState {
    PpuState {
        tile_pattern_low_shift: s.tile_pattern_low_shift | (s.tile_pattern_low as u16),
        tile_pattern_high_shift: s.tile_pattern_high_shift | (s.tile_pattern_high as u16),
        tile_palette_shift: (s.tile_palette_shift << 2) | (attribute_palette(
            s.tile_attribute,
            (s.registers.v & 0x1F) as u8,
            ((s.registers.v & 0x03E0) >> 5) as u8,
        ) as u16),
        ..s
    }
}

/// The address of the low plane of the pattern row the background needs.
pub open spec fn background_pattern_address(s: PpuState) -> u16 {
    pattern_row_address(
        s.background_pattern_table,
        s.tile_nametable,
        ((s.registers.v >> 12) & 0x7) as u8,
    )
}

/// The state after the memory fetch that dot `cycle` of a fetch line
/// performs: at dots `8k + 1`, `+3`, `+5`, `+7` the nametable byte, the
/// attribute byte and the low and high pattern bytes are fetched; at dots
/// `8k` the latches are loaded into the shifters.
pub open spec fn fetched(s: PpuState, bus: Seq<MappingView>) -> PpuState {
    let phase = s.cycle % 8;
    if phase == 0 {
        tile_loaded(s)
    } else if phase == 1 {
        PpuState { tile_nametable: ppu_read(bus, s.open_bus, ADDRESS_NAMETABLE0 | (s.registers.v & 0x0FFF)), ..s }
    } else if phase == 3 {
        PpuState { tile_attribute: ppu_read(bus, s.open_bus, attribute_address_of(s.registers.v)), ..s }
    } else if phase == 5 {
        PpuState { tile_pattern_low: ppu_read(bus, s.open_bus, background_pattern_address(s)), ..s }
    } else if phase == 7 {
        PpuState {
            tile_pattern_high: ppu_read(
                bus,
                s.open_bus,
                (background_pattern_address(s) + 8) as u16,
            ),
            ..s
        }
    } else {
        s
    }
}

/// The background colour at column `x` of the line: bit 15 of each
/// pattern shifter moved left by fine X gives the colour, the palette
/// shifter the palette; with the background disabled, the backdrop.
pub open spec fn background_color(s: PpuState, x: u16) -> u8 {
    if !s.registers.background_enabled {
        0
    } else {
        let fine_x = (s.registers.x % 8) as u16;
        let low: int = if ((s.tile_pattern_low_shift << fine_x) & 0x8000) != 0 {
            1
        } else {
            0
        };
        let high: int = if ((s.tile_pattern_high_shift << fine_x) & 0x8000) != 0 {
            2
        } else {
            0
        };
        let palette = (s.tile_palette_shift >> (if x % 8 + fine_x > 7 {
            0u16
        } else {
            2u16
        })) & 0x3;
        ((palette % 8) * 4 + low + high) as u8
    }
}

/// Whether slot `slot` covers column `x` with an opaque pixel.
pub open spec fn slot_opaque_at(slot: SpriteSlot, x: u16) -> bool {
    slot.x <= x && x - slot.x <= 7 && pattern_pixel(slot.pattern, x - slot.x) != 0
}

/// The palette entry slot `slot` shows at column `x`.
pub open spec fn slot_color(slot: SpriteSlot, x: u16) -> u8 {
    ((slot.palette % 8) * 4 + pattern_pixel(slot.pattern, x - slot.x)) as u8
}

/// The first slot at or after `from` that covers column `x` with an opaque
/// pixel; the number of slots if there is none.
pub open spec fn first_opaque_slot(sprites: Seq<SpriteSlot>, x: u16, from: int) -> int
    decreases sprites.len() - from,
{
    if from < 0 || from >= sprites.len() {
        sprites.len() as int
    } else if slot_opaque_at(sprites[from], x) {
        from
    } else {
        first_opaque_slot(sprites, x, from + 1)
    }
}

/// The slot that shows at column `x`, if sprites are enabled and one does.
pub open spec fn sprite_at_column(v: PpuView, x: u16) -> Option<int> {
    if v.state.registers.sprites_enabled && first_opaque_slot(v.sprites, x, 0) < v.sprites.len() {
        Some(first_opaque_slot(v.sprites, x, 0))
    } else {
        None
    }
}

/// The palette entry shown at column `x`: the sprite if one is opaque
/// there and it is in front or the background transparent; else the
/// background if it is opaque; else the backdrop.
pub open spec fn pixel_color(v: PpuView, x: u16) -> u8 {
    let bg = background_color(v.state, x);
    match sprite_at_column(v, x) {
        Some(i) => if v.sprites[i].is_front || bg % 4 == 0 {
            slot_color(v.sprites[i], x)
        } else {
            bg
        },
        None => if bg % 4 != 0 {
            bg
        } else {
            0
        },
    }
}

/// Whether the pixel at column `x` is a sprite-0 hit: the sprite shown is
/// sprite 0 of sprite memory, the background is opaque too, and the column
/// is not the first, nor among the first eight while either leftmost
/// column is masked.
pub open spec fn hits_sprite0(v: PpuView, x: u16) -> bool {
    match sprite_at_column(v, x) {
        Some(i) => v.sprites[i].index == 0 && background_color(v.state, x) % 4 != 0 && x >= 1 && ((
        !v.state.registers.show_leftmost_background || !v.state.registers.show_leftmost_sprite)
            ==> x >= 8),
        None => false,
    }
}

/// The frame with pixel (`x`, `y`) set to `c`; unchanged outside the frame.
pub open spec fn pixel_written(display: Seq<u8>, x: u16, y: u16, c: u8) -> Seq<u8> {
    if x < 256 && y < 240 && x + 256 * y < display.len() {
        display.update(x + 256 * y, c)
    } else {
        display
    }
}

/// The state after the pixel at column `x` of the current line was drawn.
pub open spec fn pixel_rendered(v: PpuView, x: u16) -> PpuView {
    PpuView {
        state: PpuState { sprite0_hit: v.state.sprite0_hit || hits_sprite0(v, x), ..v.state },
        display: pixel_written(
            v.display,
            x,
            v.state.scanline,
            ppu_read(
                v.bus,
                v.state.open_bus,
                (ADDRESS_BACKGROUND_PALETTE0 + pixel_color(v, x)) as u16,
            ),
        ),
        ..v
    }
}

/// The slot that sprite `i` of sprite memory fills on the current line,
/// if the line crosses the sprite. For 8x16 sprites bit 0 of the tile
/// index selects the pattern table and the row selects the upper or lower
/// tile; the pattern row is mirrored for a horizontally flipped sprite.
pub open spec fn sprite_slot(v: PpuView, i: int) -> Option<SpriteSlot> {
    let sp = sprite_at(v.oam, i);
    let height: u8 = if v.state.sprite_size {
        16
    } else {
        8
    };
    match sprite_row(v.state.scanline, sp.y, height, sp.flip_vertical) {
        None => None,
        Some(row) => {
            let address = if v.state.sprite_size {
                pattern_row_address(
                    sp.tile_index % 2 == 1,
                    ((sp.tile_index / 2) * 2 + (if row >= 8 {
                        1int
                    } else {
                        0int
                    })) as u8,
                    row % 8,
                )
            } else {
                pattern_row_address(v.state.sprite_pattern_table, sp.tile_index, row)
            };
            let row0 = ppu_read(v.bus, v.state.open_bus, address);
            let row1 = ppu_read(v.bus, v.state.open_bus, (address + 8) as u16);
            Some(
                SpriteSlot {
                    pattern: if sp.flip_horizontal {
                        interleaved(reversed(row1) as u8, reversed(row0) as u8) as u16
                    } else {
                        interleaved(row1, row0) as u16
                    },
                    palette: sp.palette,
                    x: sp.x,
                    is_front: sp.is_front,
                    index: i as u8,
                },
            )
        },
    }
}

/// The slots of the sprites among the first `n` of sprite memory that the
/// current line crosses, in the order of sprite memory.
pub open spec fn crossing_slots(v: PpuView, n: nat) -> Seq<SpriteSlot>
    decreases n,
{
    if n == 0 {
        Seq::empty()
    } else {
        match sprite_slot(v, n - 1) {
            Some(slot) => crossing_slots(v, (n - 1) as nat).push(slot),
            None => crossing_slots(v, (n - 1) as nat),
        }
    }
}

/// The first eight elements of `s`, or all of them if there are fewer.
pub open spec fn first_eight(s: Seq<SpriteSlot>) -> Seq<SpriteSlot> {
    if s.len() > 8 {
        s.subrange(0, 8)
    } else {
        s
    }
}

/// The state after sprite evaluation: the first eight sprites that the
/// line crosses fill the slots, and a ninth sets sprite overflow.
pub open spec fn sprites_evaluated(v: PpuView) -> PpuView {
    PpuView {
        state: PpuState {
            sprite_overflow: v.state.sprite_overflow || crossing_slots(v, 64).len() > 8,
            ..v.state
        },
        sprites: first_eight(crossing_slots(v, 64)),
        ..v
    }
}

impl Ppu {
    /// Advances the countdown to the interrupt and the position by one dot.
    pub fn tick_counters(&mut self)
        ensures
            final(self)@ == (PpuView { state: ticked(old(self)@.state), ..old(self)@ }),
    {
        self.count_nmi();
        self.advance_position();
    }

    fn count_nmi(&mut self)
        ensures
            final(self)@ == (PpuView { state: nmi_counted(old(self)@.state), ..old(self)@ }),
    {
        if self.state.clocks_until_nmi > 0 {
            self.state.clocks_until_nmi = self.state.clocks_until_nmi - 1;
            if self.state.clocks_until_nmi == 0 && self.state.generate_vblank_nmi
                && self.state.nmi_occurred {
                self.state.is_vblank_nmi = true;
            }
        }
    }

    fn advance_position(&mut self)
        ensures
            final(self)@ == (PpuView { state: position_advanced(old(self)@.state), ..old(self)@ }),
    {
        if self.is_rendering_enabled() && self.state.frame_parity && self.state.scanline == 261
            && self.state.cycle == 339 {
            self.begin_frame();
        } else if self.state.cycle >= 340 {
            if self.state.scanline >= 261 {
                self.begin_frame();
            } else {
                self.state.cycle = 0;
                self.state.scanline = self.state.scanline + 1;
            }
        } else {
            self.state.cycle = self.state.cycle + 1;
        }
    }

    fn begin_frame(&mut self)
        ensures
            final(self)@ == (PpuView { state: frame_begun(old(self)@.state), ..old(self)@ }),
    {
        self.state.cycle = 0;
        self.state.scanline = 0;
        self.state.frame = self.state.frame.wrapping_add(1);
        self.state.frame_parity = !self.state.frame_parity;
    }

    /// Whether sprites are drawn.
    pub fn is_sprites_enabled(&self) -> (r: bool)
        ensures
            r == self@.state.registers.sprites_enabled,
    {
        self.state.registers.is_sprites_enabled()
    }

    /// Whether the background is drawn.
    pub fn is_background_enabled(&self) -> (r: bool)
        ensures
            r == self@.state.registers.background_enabled,
    {
        self.state.registers.is_background_enabled()
    }

    /// Whether sprites or the background are drawn.
    pub fn is_rendering_enabled(&self) -> (r: bool)
        ensures
            r == (self@.state.registers.sprites_enabled
                || self@.state.registers.background_enabled),
    {
        self.state.registers.is_rendering_enabled()
    }

    /// Moves the pattern shifters left by one.
    pub fn shift_registers(&mut self)
        ensures
            final(self)@ == (PpuView { state: shifted(old(self)@.state), ..old(self)@ }),
    {
        self.state.tile_pattern_low_shift = self.state.tile_pattern_low_shift << 1;
        self.state.tile_pattern_high_shift = self.state.tile_pattern_high_shift << 1;
    }

    /// Loads the fetch latches into the shifters.
    pub fn shift_new_tile(&mut self)
        ensures
            final(self)@ == (PpuView { state: tile_loaded(old(self)@.state), ..old(self)@ }),
    {
        let attribute = self.state.tile_attribute;
        let idx_x = self.state.registers.tile_x();
        let idx_y = self.state.registers.tile_y();
        let palette = split_attribute_entry(attribute, idx_x, idx_y) as u16;
        let pattern_low = self.state.tile_pattern_low;
        let pattern_high = self.state.tile_pattern_high;
        self.state.tile_pattern_low_shift = self.state.tile_pattern_low_shift | (pattern_low as u16);
        self.state.tile_pattern_high_shift = self.state.tile_pattern_high_shift | (
        pattern_high as u16);
        self.state.tile_palette_shift = (self.state.tile_palette_shift << 2) | palette;
    }

    /// Fetches the nametable byte of the tile `v` names.
    pub fn fetch_bg_tile(&mut self)
        ensures
            final(self)@ == (PpuView {
                state: PpuState {
                    tile_nametable: ppu_read(
                        old(self)@.bus,
                        old(self)@.state.open_bus,
                        ADDRESS_NAMETABLE0 | (old(self)@.state.registers.v & 0x0FFF),
                    ),
                    ..old(self)@.state
                },
                ..old(self)@
            }),
    {
        let tile_address = self.state.registers.tile_address();
        self.state.tile_nametable = self.fetch(tile_address);
    }

    /// Fetches the attribute byte of the tile `v` names.
    pub fn fetch_bg_attribute(&mut self)
        ensures
            final(self)@ == (PpuView {
                state: PpuState {
                    tile_attribute: ppu_read(
                        old(self)@.bus,
                        old(self)@.state.open_bus,
                        attribute_address_of(old(self)@.state.registers.v),
                    ),
                    ..old(self)@.state
                },
                ..old(self)@
            }),
    {
        let address = self.state.registers.attribute_address();
        self.state.tile_attribute = self.fetch(address);
    }

    /// Fetches the low plane of the pattern row the background needs.
    pub fn fetch_bg_pattern_low(&mut self)
        ensures
            final(self)@ == (PpuView {
                state: PpuState {
                    tile_pattern_low: ppu_read(
                        old(self)@.bus,
                        old(self)@.state.open_bus,
                        background_pattern_address(old(self)@.state),
                    ),
                    ..old(self)@.state
                },
                ..old(self)@
            }),
    {
        let (ptr_low, _) = locate_pattern_row(
            self.state.background_pattern_table,
            self.state.tile_nametable,
            self.state.registers.fine_y(),
        );
        self.state.tile_pattern_low = self.fetch(ptr_low);
    }

    /// Fetches the high plane of the pattern row the background needs.
    pub fn fetch_bg_pattern_high(&mut self)
        ensures
            final(self)@ == (PpuView {
                state: PpuState {
                    tile_pattern_high: ppu_read(
                        old(self)@.bus,
                        old(self)@.state.open_bus,
                        (background_pattern_address(old(self)@.state) + 8) as u16,
                    ),
                    ..old(self)@.state
                },
                ..old(self)@
            }),
    {
        let (_, ptr_high) = locate_pattern_row(
            self.state.background_pattern_table,
            self.state.tile_nametable,
            self.state.registers.fine_y(),
        );
        self.state.tile_pattern_high = self.fetch(ptr_high);
    }

    /// Performs the memory fetch of the current dot.
    pub fn fetch_for_dot(&mut self)
        ensures
            final(self)@ == (PpuView {
                state: fetched(old(self)@.state, old(self)@.bus),
                ..old(self)@
            }),
    {
        let phase = self.state.cycle % 8;
        if phase == 0 {
            self.shift_new_tile();
        } else if phase == 1 {
            self.fetch_bg_tile();
        } else if phase == 3 {
            self.fetch_bg_attribute();
        } else if phase == 5 {
            self.fetch_bg_pattern_low();
        } else if phase == 7 {
            self.fetch_bg_pattern_high();
        }
    }

    /// The background colour the shifters hold for column `x`.
    fn fetch_tile_color_from_shift(&self, x: u16) -> (r: PaletteColor)
        requires
            self@.state.registers.background_enabled,
        ensures
            r.color == background_color(self@.state, x),
    {
        let fine_x = (self.state.registers.fine_x() % 8) as u16;
        let low: u8 = if ((self.state.tile_pattern_low_shift << fine_x) & 0x8000) != 0 {
            1
        } else {
            0
        };
        let high: u8 = if ((self.state.tile_pattern_high_shift << fine_x) & 0x8000) != 0 {
            2
        } else {
            0
        };
        let shift: u16 = if x % 8 + fine_x > 7 {
            0
        } else {
            2
        };
        let palette = (self.state.tile_palette_shift >> shift) & 0x3;
        proof {
            lemma_two_bits(self.state.tile_palette_shift >> shift);
        }
        PaletteColor { color: ((palette as u8) % 8) * 4 + low + high }
    }

    /// The background colour at column `x`.
    pub fn background_pixel(&self, x: u16) -> (r: PaletteColor)
        ensures
            r.color == background_color(self@.state, x),
    {
        if !self.is_background_enabled() {
            return PaletteColor { color: 0 };
        }
        self.fetch_tile_color_from_shift(x)
    }

    /// The slot that shows at column `x` and its colour, if any does.
    pub fn sprite_pixel(&self, x: u16) -> (r: Option<(usize, PaletteColor)>)
        ensures
            match r {
                Some((i, c)) => sprite_at_column(self@, x) == Some(i as int) && c.color
                    == slot_color(self@.sprites[i as int], x) && i < self@.sprites.len(),
                None => sprite_at_column(self@, x) is None,
            },
    {
        if !self.is_sprites_enabled() {
            return None;
        }
        let mut i: usize = 0;
        while i < self.sprites.len()
            invariant
                0 <= i <= self.sprites.len(),
                self@.state.registers.sprites_enabled,
                first_opaque_slot(self.sprites@, x, 0) == first_opaque_slot(
                    self.sprites@,
                    x,
                    i as int,
                ),
            decreases self.sprites.len() - i,
        {
            let slot = self.sprites[i];
            if slot.x as u16 <= x && x - slot.x as u16 <= 7 {
                let color = pattern_pixel_at(slot.pattern, (x - slot.x as u16) as u8);
                if color != 0 {
                    return Some((i, PaletteColor { color: (slot.palette % 8) * 4 + color }));
                }
            }
            i = i + 1;
        }
        None
    }

    /// Stores palette entry `c` for pixel (`x`, `y`) of the frame.
    pub fn write_system_pixel(&mut self, x: u16, y: u16, c: u8)
        ensures
            final(self)@ == (PpuView {
                display: pixel_written(old(self)@.display, x, y, c),
                ..old(self)@
            }),
    {
        if x >= 256 || y >= 240 {
            return ;
        }
        let i = x as usize + 256 * (y as usize);
        if i < self.display.len() {
            self.display[i] = c;
        }
    }

    /// The palette entry to show at column `x`, and whether the pixel is a
    /// sprite-0 hit.
    pub fn mix_pixel(&self, x: u16) -> (r: (PaletteColor, bool))
        ensures
            r.0.color == pixel_color(self@, x),
            r.1 == hits_sprite0(self@, x),
    {
        let bg_color = self.background_pixel(x);
        let sprite = self.sprite_pixel(x);
        let masked = !self.state.registers.show_leftmost_background
            || !self.state.registers.show_leftmost_sprite;
        match sprite {
            Some((i, sprite_color)) => {
                let slot = self.sprites[i];
                let hit = slot.index == 0 && bg_color.is_opaque() && x >= 1 && (!masked || x >= 8);
                if slot.is_front || bg_color.is_transparent() {
                    (sprite_color, hit)
                } else {
                    (bg_color, hit)
                }
            },
            None => {
                if bg_color.is_opaque() {
                    (bg_color, false)
                } else {
                    (PaletteColor { color: 0 }, false)
                }
            },
        }
    }

    /// Draws the pixel at column `x` of the current line.
    pub fn render_pixel(&mut self, x: u16)
        ensures
            final(self)@ == pixel_rendered(old(self)@, x),
    {
        let y = self.state.scanline;
        let (color, hit) = self.mix_pixel(x);
        let system_color = self.fetch(color.address());
        if hit {
            self.state.sprite0_hit = true;
        }
        self.write_system_pixel(x, y, system_color);
    }

    /// Sprite `i` as sprite memory describes it.
    pub fn lookup_sprite(&self, i: usize) -> (r: Sprite)
        requires
            i < 64,
        ensures
            r == sprite_at(self@.oam, i as int),
    {
        let attribute = self.oam_at(i * 4 + 2);
        Sprite {
            index: i as u8,
            y: self.oam_at(i * 4),
            tile_index: self.oam_at(i * 4 + 1),
            palette: attribute % 4 + 4,
            is_front: (attribute / 32) % 2 == 0,
            flip_horizontal: (attribute / 64) % 2 == 1,
            flip_vertical: attribute >= 128,
            x: self.oam_at(i * 4 + 3),
        }
    }

    fn oam_at(&self, i: usize) -> (r: u8)
        ensures
            r == oam_byte(self@.oam, i as int),
    {
        if i < self.oam.len() {
            self.oam[i]
        } else {
            0
        }
    }

    /// The two planes of a pattern row.
    pub fn fetch_pattern_row(&self, right_table: bool, tile_index: u8, ysub: u8) -> (r: (u8, u8))
        ensures
            r.0 == ppu_read(
                self@.bus,
                self@.state.open_bus,
                pattern_row_address(right_table, tile_index, ysub),
            ),
            r.1 == ppu_read(
                self@.bus,
                self@.state.open_bus,
                (pattern_row_address(right_table, tile_index, ysub) + 8) as u16,
            ),
    {
        let (ptr_tile_row0, ptr_tile_row1) = locate_pattern_row(right_table, tile_index, ysub);
        (self.fetch(ptr_tile_row0), self.fetch(ptr_tile_row1))
    }

    /// The slot that `sprite` fills on the current line, if the line crosses it.
    fn fetch_sprite_pattern(&self, sprite: &Sprite) -> (r: Option<SpriteSlot>)
        requires
            *sprite == sprite_at(self@.oam, sprite.index as int),
            sprite.index < 64,
        ensures
            r == sprite_slot(self@, sprite.index as int),
    {
        let height: u8 = if self.state.sprite_size {
            16
        } else {
            8
        };
        match find_sprite_row(self.state.scanline, sprite.y, height, sprite.flip_vertical) {
            None => None,
            Some(row) => {
                let (tile_row0, tile_row1) = if self.state.sprite_size {
                    let half: u8 = if row >= 8 {
                        1
                    } else {
                        0
                    };
                    self.fetch_pattern_row(
                        sprite.tile_index % 2 == 1,
                        (sprite.tile_index / 2) * 2 + half,
                        row % 8,
                    )
                } else {
                    self.fetch_pattern_row(self.state.sprite_pattern_table, sprite.tile_index, row)
                };
                let pattern = if sprite.flip_horizontal {
                    combine_bitplanes(reverse_bits(tile_row1), reverse_bits(tile_row0))
                } else {
                    combine_bitplanes(tile_row1, tile_row0)
                };
                Some(
                    SpriteSlot {
                        pattern,
                        palette: sprite.palette,
                        x: sprite.x,
                        is_front: sprite.is_front,
                        index: sprite.index,
                    },
                )
            },
        }
    }

    /// Finds the sprites that the current line crosses.
    pub fn evaluate_sprites(&mut self)
        ensures
            final(self)@ == sprites_evaluated(old(self)@),
    {
        let mut found: Vec<SpriteSlot> = Vec::new();
        let mut count: usize = 0;
        let mut i: usize = 0;
        while i < 64
            invariant
                i <= 64,
                count <= i,
                count == crossing_slots(self@, i as nat).len(),
                found@ == first_eight(crossing_slots(self@, i as nat)),
            decreases 64 - i,
        {
            let sprite = self.lookup_sprite(i);
            match self.fetch_sprite_pattern(&sprite) {
                None => {},
                Some(slot) => {
                    if count < 8 {
                        found.push(slot);
                    }
                    count = count + 1;
                    proof {
                        let before = crossing_slots(self@, i as nat);
                        assert(first_eight(before.push(slot)) =~= (if before.len() < 8 {
                            first_eight(before).push(slot)
                        } else {
                            first_eight(before)
                        }));
                    }
                },
            }
            i = i + 1;
        }
        if count > 8 {
            self.state.sprite_overflow = true;
        }
        self.sprites = found;
    }
}

/// The low two bits of a value are a number below four.
pub proof fn lemma_two_bits(v: u16)
    by (bit_vector)
    ensures
        (v & 0x3) < 4,
{
}


/// Whether the line is one of the 240 that are drawn.
pub open spec fn is_visible_line(s: PpuState) -> bool {
    s.scanline < 240
}

/// Whether the line is drawn or the pre-render line.
pub open spec fn is_fetch_line(s: PpuState) -> bool {
    s.scanline == SCANLINE_PRERENDER || s.scanline < 240
}

/// Whether the dot is one of the 256 that draw a pixel.
pub open spec fn is_visible_cycle(s: PpuState) -> bool {
    1 <= s.cycle <= 256
}

/// Whether the dot shifts and fetches: a drawing dot, or one of the dots
/// 321 to 336 that fetch ahead for the next line.
pub open spec fn is_fetch_cycle(s: PpuState) -> bool {
    (321 <= s.cycle <= 336) || is_visible_cycle(s)
}

/// The current VRAM address after the dot: on the pre-render line dots
/// 280 to 304 copy the vertical bits of `t`; on a fetch line every eighth
/// fetching dot moves one tile right, dot 256 moves one row down and dot
/// 257 copies the horizontal bits of `t`.
#[verifier::opaque]
pub open spec fn scrolled_address(v0: u16, t: u16, scanline: u16, cycle: u16) -> u16 {
    let fetch_line = scanline == SCANLINE_PRERENDER || scanline < 240;
    let fetch_cycle = (321 <= cycle <= 336) || (1 <= cycle <= 256);
    let v1 = if scanline == SCANLINE_PRERENDER && 280 <= cycle <= 304 {
        copied_bits(v0, t, VERTICAL_BITS)
    } else {
        v0
    };
    let v2 = if fetch_line && fetch_cycle && cycle % 8 == 0 {
        coarse_x_incremented(v1)
    } else {
        v1
    };
    let v3 = if fetch_line && cycle == 256 {
        fine_y_incremented(v2)
    } else {
        v2
    };
    if fetch_line && cycle == 257 {
        copied_bits(v3, t, HORIZONTAL_BITS)
    } else {
        v3
    }
}

/// The state with the current VRAM address updated for the dot.
pub open spec fn scrolled(s: PpuState) -> PpuState {
    PpuState {
        registers: PpuRegisters {
            v: scrolled_address(s.registers.v, s.registers.t, s.scanline, s.cycle),
            ..s.registers
        },
        ..s
    }
}

/// Computes [`scrolled_address`].
pub fn scroll_address(v0: u16, t: u16, scanline: u16, cycle: u16) -> (r: u16)
    ensures
        r == scrolled_address(v0, t, scanline, cycle),
{
    reveal(scrolled_address);
    let mut r = PpuRegisters::new();
    r.v = v0;
    r.t = t;
    let is_fetch_line = scanline == SCANLINE_PRERENDER || scanline < 240;
    let is_fetch_cycle = (cycle >= 321 && cycle <= 336) || (cycle >= 1 && cycle <= 256);
    if scanline == SCANLINE_PRERENDER && cycle >= 280 && cycle <= 304 {
        r.copy_y();
    }
    if is_fetch_line && is_fetch_cycle && cycle % 8 == 0 {
        r.increment_x();
    }
    if is_fetch_line && cycle == 256 {
        r.increment_y();
    }
    if is_fetch_line && cycle == 257 {
        r.copy_x();
    }
    r.v
}

/// The state after the background work of a dot with rendering enabled:
/// a pixel is drawn on a drawing dot of a visible line; on a fetching dot
/// of a fetch line the shifters move and the fetch of the dot is done;
/// then the scroll registers are updated.
pub open spec fn background_stepped(v: PpuView) -> PpuView {
    let v1 = if is_visible_line(v.state) && is_visible_cycle(v.state) {
        pixel_rendered(v, (v.state.cycle - 1) as u16)
    } else {
        v
    };
    let s2 = if is_fetch_line(v1.state) && is_fetch_cycle(v1.state) {
        fetched(shifted(v1.state), v1.bus)
    } else {
        v1.state
    };
    PpuView { state: scrolled(s2), ..v1 }
}

/// The state after the sprite work of a dot with rendering enabled: at
/// dot 257 the sprites for the line are found on a visible line and the
/// slots are emptied on any other.
pub open spec fn sprite_stepped(v: PpuView) -> PpuView {
    if v.state.cycle == 257 {
        if is_visible_line(v.state) {
            sprites_evaluated(v)
        } else {
            PpuView { sprites: Seq::empty(), ..v }
        }
    } else {
        v
    }
}

/// The state after the flags were updated for the dot: dot 1 of line 241
/// raises VBlank; dot 1 of the pre-render line clears VBlank, sprite-0 hit
/// and sprite overflow.
pub open spec fn vblank_stepped(s: PpuState) -> PpuState {
    let s1 = if s.scanline == SCANLINE_VBLANK && s.cycle == 1 {
        vblank_set(s, true)
    } else {
        s
    };
    if s1.scanline == SCANLINE_PRERENDER && s1.cycle == 1 {
        PpuState { sprite0_hit: false, sprite_overflow: false, ..vblank_set(s1, false) }
    } else {
        s1
    }
}

/// The state after one dot: the counters tick, then, with rendering
/// enabled, the background and sprite work of the new position is done,
/// then the flags are updated.
pub open spec fn ppu_dot(v: PpuView) -> PpuView {
    let v1 = PpuView { state: ticked(v.state), ..v };
    let v2 = if v1.state.registers.sprites_enabled || v1.state.registers.background_enabled {
        sprite_stepped(background_stepped(v1))
    } else {
        v1
    };
    PpuView { state: vblank_stepped(v2.state), ..v2 }
}

/// The state after `n` dots.
pub open spec fn ppu_dots(v: PpuView, n: nat) -> PpuView
    decreases n,
{
    if n == 0 {
        v
    } else {
        ppu_dots(ppu_dot(v), (n - 1) as nat)
    }
}

impl Ppu {
    fn scroll_for_dot(&mut self)
        ensures
            final(self)@ == (PpuView { state: scrolled(old(self)@.state), ..old(self)@ }),
    {
        let v0 = self.state.registers.v;
        let t = self.state.registers.t;
        let scanline = self.state.scanline;
        let cycle = self.state.cycle;
        let v = scroll_address(v0, t, scanline, cycle);
        self.state.registers.set_vram_ptr(v);
    }

    fn shift_and_fetch(&mut self)
        ensures
            final(self)@ == (PpuView {
                state: fetched(shifted(old(self)@.state), old(self)@.bus),
                ..old(self)@
            }),
    {
        self.shift_registers();
        self.fetch_for_dot();
    }

    fn step_background(&mut self)
        ensures
            final(self)@ == background_stepped(old(self)@),
    {
        let scanline = self.state.scanline;
        let cycle = self.state.cycle;
        let is_visible_line = scanline < 240;
        let is_visible_cycle = cycle >= 1 && cycle <= 256;
        let is_fetch_line = scanline == SCANLINE_PRERENDER || is_visible_line;
        let is_fetch_cycle = (cycle >= 321 && cycle <= 336) || is_visible_cycle;
        if is_visible_line && is_visible_cycle {
            self.render_pixel(cycle - 1);
        }
        if is_fetch_line && is_fetch_cycle {
            self.shift_and_fetch();
        }
        self.scroll_for_dot();
    }

    fn step_sprites(&mut self)
        ensures
            final(self)@ == sprite_stepped(old(self)@),
    {
        if self.state.cycle == 257 {
            if self.state.scanline < 240 {
                self.evaluate_sprites();
            } else {
                self.sprites = Vec::new();
            }
        }
    }

    fn step_vblank(&mut self)
        ensures
            final(self)@ == (PpuView { state: vblank_stepped(old(self)@.state), ..old(self)@ }),
    {
        if self.state.scanline == SCANLINE_VBLANK && self.state.cycle == 1 {
            self.set_vblank(true);
        }
        if self.state.scanline == SCANLINE_PRERENDER && self.state.cycle == 1 {
            self.set_vblank(false);
            self.state.sprite0_hit = false;
            self.state.sprite_overflow = false;
        }
    }

    /// Advances the picture processor by one dot.
    pub fn clock(&mut self)
        ensures
            final(self)@ == ppu_dot(old(self)@),
    {
        self.tick_counters();
        if self.is_rendering_enabled() {
            self.step_background();
            self.step_sprites();
        }
        self.step_vblank();
    }

    /// Answers a read of register `port`.
    pub fn read_port(&mut self, port: PpuPort) -> (r: u8)
        ensures
            r == port_value(old(self)@, port),
            final(self)@ == port_read(old(self)@, port),
    {
        match port {
            PpuPort::PPUSTATUS => self.read_status(),
            PpuPort::OAMDATA => self.read_oam_data(),
            PpuPort::PPUDATA => self.read_data(),
            _ => self.state.open_bus,
        }
    }

    fn latch(&mut self, value: u8)
        ensures
            final(self)@ == bus_latched(old(self)@, value),
    {
        self.state.open_bus = value;
    }

    fn write_latched(&mut self, port: PpuPort, value: u8)
        ensures
            final(self)@ == port_acted(old(self)@, port, value),
    {
        match port {
            PpuPort::PPUCTRL => self.write_control(value),
            PpuPort::PPUMASK => self.write_mask(value),
            PpuPort::PPUSTATUS => {},
            PpuPort::OAMADDR => self.write_oam_address(value),
            PpuPort::OAMDATA => self.write_oam_data(value),
            PpuPort::PPUSCROLL => self.write_scroll(value),
            PpuPort::PPUADDR => self.write_address(value),
            PpuPort::PPUDATA => self.write_data(value),
            PpuPort::OAMDMA => {},
        }
    }

    /// Takes a write of `value` to register `port`.
    pub fn write_port(&mut self, port: PpuPort, value: u8)
        ensures
            final(self)@ == port_written(old(self)@, port, value),
    {
        self.latch(value);
        self.write_latched(port, value);
    }

    /// The byte a read of register `port` would return, without reading.
    pub fn probe_port(&self, port: PpuPort) -> (r: u8)
        ensures
            r == port_value(self@, port),
    {
        match port {
            PpuPort::PPUSTATUS => {
                let mut ret: u8 = self.state.open_bus % 32;
                if self.state.sprite_overflow {
                    ret = ret + 32;
                }
                if self.state.sprite0_hit {
                    ret = ret + 64;
                }
                if self.state.nmi_occurred {
                    ret = ret + 128;
                }
                ret
            },
            PpuPort::OAMDATA => self.oam_at(self.state.oam_ptr as usize),
            PpuPort::PPUDATA => {
                let ptr = self.state.registers.vram_ptr();
                if ptr < 0x3f00 {
                    self.state.ppudata_buffer
                } else {
                    self.fetch(ptr)
                }
            },
            _ => self.state.open_bus,
        }
    }

    /// Reports whether the interrupt is asked for, and lowers the request.
    pub fn take_nmi(&mut self) -> (r: bool)
        ensures
            r == old(self)@.state.is_vblank_nmi,
            final(self)@ == (PpuView {
                state: PpuState { is_vblank_nmi: false, ..old(self)@.state },
                ..old(self)@
            }),
    {
        let r = self.state.is_vblank_nmi;
        self.state.is_vblank_nmi = false;
        r
    }

    /// Reports whether a scanline interrupt is asked for, and lowers the request.
    pub fn take_irq(&mut self) -> (r: bool)
        ensures
            r == old(self)@.state.is_scanline_irq,
            final(self)@ == (PpuView {
                state: PpuState { is_scanline_irq: false, ..old(self)@.state },
                ..old(self)@
            }),
    {
        let r = self.state.is_scanline_irq;
        self.state.is_scanline_irq = false;
        r
    }

    /// Replaces the bus of the picture processor.
    pub fn set_mapper(&mut self, mapper: Mapper)
        ensures
            final(self)@ == (PpuView { bus: mapper@, ..old(self)@ }),
    {
        self.mapper = mapper;
    }
}

/// The registers of the picture processor as the processor sees them.
#[allow(non_camel_case_types)]
#[derive(Copy, Clone, Debug, PartialEq, Eq, Structural)]
pub enum PpuPort {
    PPUCTRL,
    PPUMASK,
    PPUSTATUS,
    OAMADDR,
    OAMDATA,
    PPUSCROLL,
    PPUADDR,
    PPUDATA,
    OAMDMA,
}

/// The register that the processor address `ptr` names.
pub open spec fn ppu_port_at(ptr: u16) -> Option<PpuPort> {
    if ptr == 0x2000 {
        Some(PpuPort::PPUCTRL)
    } else if ptr == 0x2001 {
        Some(PpuPort::PPUMASK)
    } else if ptr == 0x2002 {
        Some(PpuPort::PPUSTATUS)
    } else if ptr == 0x2003 {
        Some(PpuPort::OAMADDR)
    } else if ptr == 0x2004 {
        Some(PpuPort::OAMDATA)
    } else if ptr == 0x2005 {
        Some(PpuPort::PPUSCROLL)
    } else if ptr == 0x2006 {
        Some(PpuPort::PPUADDR)
    } else if ptr == 0x2007 {
        Some(PpuPort::PPUDATA)
    } else if ptr == 0x4014 {
        Some(PpuPort::OAMDMA)
    } else {
        None
    }
}

/// The register that the processor address `ptr` names.
pub fn map_ppu_port(ptr: u16) -> (r: Option<PpuPort>)
    ensures
        r == ppu_port_at(ptr),
{
    match ptr {
        0x2000 => Some(PpuPort::PPUCTRL),
        0x2001 => Some(PpuPort::PPUMASK),
        0x2002 => Some(PpuPort::PPUSTATUS),
        0x2003 => Some(PpuPort::OAMADDR),
        0x2004 => Some(PpuPort::OAMDATA),
        0x2005 => Some(PpuPort::PPUSCROLL),
        0x2006 => Some(PpuPort::PPUADDR),
        0x2007 => Some(PpuPort::PPUDATA),
        0x4014 => Some(PpuPort::OAMDMA),
        _ => None,
    }
}

/// The byte a read of register `port` returns: status, sprite data and
/// data answer; the write-only registers return the open bus.
pub open spec fn port_value(v: PpuView, port: PpuPort) -> u8 {
    match port {
        PpuPort::PPUSTATUS => status_value(v.state),
        PpuPort::OAMDATA => oam_byte(v.oam, v.state.oam_ptr as int),
        PpuPort::PPUDATA => data_value(v),
        _ => v.state.open_bus,
    }
}

/// The state after a read of register `port`.
pub open spec fn port_read(v: PpuView, port: PpuPort) -> PpuView {
    match port {
        PpuPort::PPUSTATUS => PpuView { state: status_read(v.state), ..v },
        PpuPort::PPUDATA => data_read(v),
        _ => v,
    }
}

/// The state with the open bus holding `value`.
pub open spec fn bus_latched(v: PpuView, value: u8) -> PpuView {
    PpuView { state: PpuState { open_bus: value, ..v.state }, ..v }
}

/// The state after register `port` acted on the byte `value` written to it.
pub open spec fn port_acted(l: PpuView, port: PpuPort, value: u8) -> PpuView {
    match port {
        PpuPort::PPUCTRL => PpuView { state: ppu_control_written(l.state, value), ..l },
        PpuPort::PPUMASK => PpuView {
            state: PpuState { registers: mask_written(l.state.registers, value), ..l.state },
            ..l
        },
        PpuPort::PPUSTATUS => l,
        PpuPort::OAMADDR => PpuView { state: PpuState { oam_ptr: value, ..l.state }, ..l },
        PpuPort::OAMDATA => oam_data_written(l, value),
        PpuPort::PPUSCROLL => PpuView {
            state: PpuState { registers: scroll_written(l.state.registers, value), ..l.state },
            ..l
        },
        PpuPort::PPUADDR => PpuView {
            state: PpuState { registers: address_written(l.state.registers, value), ..l.state },
            ..l
        },
        PpuPort::PPUDATA => data_written(l, value),
        PpuPort::OAMDMA => l,
    }
}

/// The state after `value` was written to register `port`: the open bus
/// takes the byte, then the register acts on it. A write to the DMA
/// register only latches: the transfer is made by the owner of both buses.
pub open spec fn port_written(v: PpuView, port: PpuPort, value: u8) -> PpuView {
    port_acted(bus_latched(v, value), port, value)
}

/// The state after the bytes of `page` from position `from` on were
/// written to the sprite data register one after another.
pub open spec fn dma_written(v: PpuView, page: Seq<u8>, from: int) -> PpuView
    decreases page.len() - from,
{
    if from < 0 || from >= page.len() {
        v
    } else {
        dma_written(oam_data_written(v, page[from]), page, from + 1)
    }
}

/// The bridge between the processor bus and the picture processor: it owns
/// the picture processor and turns accesses to `$2000..=$2007` and `$4014`
/// into register operations.
pub struct CpuPpuInterconnect {
    pub ppu: Ppu,
}

impl View for CpuPpuInterconnect {
    type V = PpuView;

    open spec fn view(&self) -> PpuView {
        self.ppu@
    }
}

impl CpuPpuInterconnect {
    /// A fresh one, as at power-on.
    pub fn new(ppu: Ppu) -> (r: CpuPpuInterconnect)
        ensures
            r@ == ppu@,
    {
        CpuPpuInterconnect { ppu: ppu }
    }

    /// Answers a read of register `port`.
    pub fn read_port(&mut self, port: PpuPort) -> (r: u8)
        ensures
            r == port_value(old(self)@, port),
            final(self)@ == port_read(old(self)@, port),
    {
        self.ppu.read_port(port)
    }

    /// Takes a write of `value` to register `port`.
    pub fn write_port(&mut self, port: PpuPort, value: u8)
        ensures
            final(self)@ == port_written(old(self)@, port, value),
    {
        self.ppu.write_port(port, value)
    }

    /// Copies `page` into sprite memory, byte after byte from the sprite
    /// address on, as 256 writes to the sprite data register would.
    pub fn oam_dma(&mut self, page: &Vec<u8>)
        ensures
            final(self)@ == dma_written(old(self)@, page@, 0),
    {
        let mut i: usize = 0;
        while i < page.len()
            invariant
                i <= page.len(),
                dma_written(self@, page@, i as int) == dma_written(old(self)@, page@, 0),
            decreases page.len() - i,
        {
            self.ppu.write_oam_data(page[i]);
            i = i + 1;
        }
    }
}

impl AddressSpace for CpuPpuInterconnect {
    open spec fn maps(v: PpuView, ptr: u16) -> bool {
        ppu_port_at(ptr) is Some
    }

    open spec fn value_at(v: PpuView, ptr: u16) -> u8 {
        port_value(v, ppu_port_at(ptr)->0)
    }

    open spec fn after_peek(v: PpuView, ptr: u16) -> PpuView {
        match ppu_port_at(ptr) {
            Some(port) => port_read(v, port),
            None => v,
        }
    }

    open spec fn after_poke(v: PpuView, ptr: u16, value: u8) -> PpuView {
        match ppu_port_at(ptr) {
            Some(port) => port_written(v, port, value),
            None => v,
        }
    }

    fn peek(&mut self, ptr: u16) -> (r: Result<u8, BusError>) {
        match map_ppu_port(ptr) {
            Some(port) => Ok(self.read_port(port)),
            None => Err(BusError::UnmappedRead),
        }
    }

    fn poke(&mut self, ptr: u16, value: u8) -> (r: Result<(), BusError>) {
        match map_ppu_port(ptr) {
            Some(port) => {
                self.write_port(port, value);
                Ok(())
            },
            None => Err(BusError::UnmappedWrite),
        }
    }
}


impl Clocked for Ppu {
    open spec fn clocked(v: PpuView) -> PpuView {
        ppu_dot(v)
    }

    fn clock(&mut self) {
        Ppu::clock(self)
    }
}


/// Two reads of the status register in a row while VBlank is up return
/// bit 7 set and then bit 7 clear; the write toggle is clear afterwards.
pub proof fn lemma_status_read_clears_vblank(v: PpuView)
    requires
        v.state.nmi_occurred,
    ensures
        port_value(v, PpuPort::PPUSTATUS) >= 128,
        port_value(port_read(v, PpuPort::PPUSTATUS), PpuPort::PPUSTATUS) < 128,
        !port_read(v, PpuPort::PPUSTATUS).state.registers.w,
        port_value(v, PpuPort::PPUSTATUS) % 32 == v.state.open_bus % 32,
{
}

/// The two writes to the scroll register set the fields that the scroll
/// layout names: the first coarse X (bits 0 to 4 of `t`) to the high five
/// bits of the byte and fine X to the low three; the second coarse Y (bits
/// 5 to 9) to the high five bits and fine Y (bits 12 to 14) to the low
/// three. Every other bit of `t` stays, and `v` is not touched.
pub proof fn lemma_scroll_writes(r: PpuRegisters, d: u8)
    ensures
        !r.w ==> {
            let n = scroll_written(r, d);
            &&& n.w
            &&& n.v == r.v
            &&& n.x == d & 0x7
            &&& r.t < 0x8000 ==> n.t < 0x8000
            &&& r.t & 0x1F == 0 ==> n.t & 0x1F == (d >> 3) as u16
            &&& r.t & 0x1F == 0 ==> n.t & !0x1Fu16 == r.t & !0x1Fu16
        },
        r.w ==> {
            let n = scroll_written(r, d);
            &&& !n.w
            &&& n.v == r.v
            &&& n.x == r.x
            &&& r.t < 0x8000 ==> n.t < 0x8000
            &&& (n.t >> 5) & 0x1F == (d >> 3) as u16
            &&& (n.t >> 12) & 0x7 == (d & 0x7) as u16
            &&& n.t & 0x0C1F == r.t & 0x0C1F
        },
{
    let t = r.t;
    assert(t < 0x8000 ==> ((t & !0x1Fu16) | ((d as u16) >> 3)) < 0x8000) by (bit_vector);
    assert(t & 0x1F == 0 ==> ((t & !0x1Fu16) | ((d as u16) >> 3)) & 0x1F == (d >> 3) as u16
        && ((t & !0x1Fu16) | ((d as u16) >> 3)) & !0x1Fu16 == t & !0x1Fu16) by (bit_vector);
    assert({
        let n = ((t & !0x73E0u16) | ((((d as u16) >> 3) & 0x1F) << 5)) | (((d as u16) & 0x7) << 12);
        &&& (t < 0x8000 ==> n < 0x8000)
        &&& (n >> 5) & 0x1F == (d >> 3) as u16
        &&& (n >> 12) & 0x7 == (d & 0x7) as u16
        &&& n & 0x0C1F == t & 0x0C1F
    }) by (bit_vector);
}

/// The two writes to the address register set `t` and `v` as the scroll
/// layout names: the first puts the low six bits of the byte into bits 8
/// to 13 of `t` and clears bit 14; the second puts the byte into the low
/// byte of `t` and copies `t` to `v`. After both, `v` is the 14-bit
/// address that the two bytes spell.
pub proof fn lemma_address_writes(r: PpuRegisters, hi: u8, lo: u8)
    requires
        !r.w,
    ensures
        address_written(r, hi).w,
        address_written(r, hi).v == r.v,
        address_written(r, hi).t & 0x00FF == r.t & 0x00FF,
        address_written(r, hi).t >> 8 == (hi & 0x3F) as u16,
        !address_written(address_written(r, hi), lo).w,
        address_written(address_written(r, hi), lo).v == address_written(
            address_written(r, hi),
            lo,
        ).t,
        address_written(address_written(r, hi), lo).v == ((hi & 0x3F) as u16) * 256 + lo,
        address_written(address_written(r, hi), lo).v < 0x4000,
{
    let t = r.t;
    assert({
        let t1 = (t & 0x00FF) | (((hi & 0x3F) as u16) << 8);
        let t2 = (t1 & 0xFF00) | (lo as u16);
        &&& t1 & 0x00FF == t & 0x00FF
        &&& t1 >> 8 == (hi & 0x3F) as u16
        &&& t2 == ((hi & 0x3F) as u16) * 256 + lo as u16
        &&& t2 < 0x4000
    }) by (bit_vector);
}

/// The scroll registers stay within fifteen bits under every operation
/// on them.
pub proof fn lemma_registers_stay_15_bits(r: PpuRegisters, d: u8)
    requires
        r.v < 0x8000,
        r.t < 0x8000,
    ensures
        copied_bits(r.v, r.t, VERTICAL_BITS) < 0x8000,
        copied_bits(r.v, r.t, HORIZONTAL_BITS) < 0x8000,
        coarse_x_incremented(r.v) < 0x8000,
        fine_y_incremented(r.v) < 0x8000,
        control_written(r.t, d) < 0x8000,
        scroll_written(r, d).t < 0x8000,
        address_written(r, d).t < 0x8000,
        address_written(r, d).v < 0x8000,
        vram_advanced(r.v, r.vram_increment) < 0x8000,
{
    let v = r.v;
    let t = r.t;
    let w = v.wrapping_add(if r.vram_increment { 32u16 } else { 1u16 });
    assert(v < 0x8000 && t < 0x8000 ==> {
        &&& ((v & !0x7BE0u16) | (t & 0x7BE0)) < 0x8000
        &&& ((v & !0x041Fu16) | (t & 0x041F)) < 0x8000
        &&& ((v & !0x001Fu16) ^ 0x0400) < 0x8000
        &&& (((v + 1) as u16) & 0x7FFF) < 0x8000
        &&& ((v & 0x7000) != 0x7000 ==> ((v + 0x1000) as u16) < 0x8000)
        &&& ((((v & !0x7000u16) ^ 0x0800) & !0x03E0u16) | (0u16 << 5)) < 0x8000
        &&& (((v & !0x7000u16) & !0x03E0u16) | (0u16 << 5)) < 0x8000
        &&& ((((v & !0x7000u16) & 0x03e0) >> 5) < 31 ==> (((v & !0x7000u16) & !0x03E0u16) | ((((((v
            & !0x7000u16) & 0x03e0) >> 5) + 1) as u16) << 5)) < 0x8000)
        &&& ((t & !0x0C00u16) | (((d as u16) & 0x3) << 10)) < 0x8000
        &&& ((t & !0x1Fu16) | ((d as u16) >> 3)) < 0x8000
        &&& (((t & !0x73E0u16) | ((((d as u16) >> 3) & 0x1F) << 5)) | (((d as u16) & 0x7) << 12))
            < 0x8000
        &&& ((t & 0x00FF) | (((d & 0x3F) as u16) << 8)) < 0x8000
        &&& ((t & 0xFF00) | (d as u16)) < 0x8000
        &&& (w & 0x3FFF) < 0x8000
        &&& (v & 0x001F) != 31 ==> v < 0xFFFF
        &&& (v & 0x7000) != 0x7000 ==> v <= 0xEFFF
        &&& (((v & !0x7000u16) & 0x03e0) >> 5) <= 31
    }) by (bit_vector);
}

/// A byte written through the data register to an address below `$3EFF`
/// comes back on the second of two reads once the address was set again:
/// the first read puts it into the buffer. A byte written at `$3F00` or
/// above comes back on the first read. The address advances by one with
/// each access.
#[verifier::rlimit(60)]
pub proof fn lemma_data_round_trip(v: PpuView, value: u8)
    requires
        !v.state.registers.vram_increment,
        v.state.registers.v < 0x3FFF,
        mapper_keeps(v.bus, v.state.registers.v),
    ensures
        ({
            let address = v.state.registers.v;
            let written = data_written(v, value);
            let again = PpuView {
                state: PpuState {
                    registers: PpuRegisters { v: address, ..written.state.registers },
                    ..written.state
                },
                ..written
            };
            &&& written.state.registers.v == address + 1
            &&& address < 0x3eff ==> data_value(data_read(again)) == value
            &&& address < 0x3f00 ==> data_read(again).state.ppudata_buffer == value
            &&& address < 0x3f00 ==> data_read(again).state.registers.v == address + 1
            &&& address >= 0x3f00 ==> data_value(again) == value
        }),
{
    let address = v.state.registers.v;
    let bus1 = mapper_written(v.bus, address, value);
    lemma_mapper_read_after_write(v.bus, address, value);
    assert(mapper_maps(bus1, address) && mapper_value(bus1, address) == value);
    let next = address.wrapping_add(1);
    assert(next & 0x3FFF == next) by (bit_vector)
        requires
            next < 0x4000,
    ;
    assert(vram_advanced(address, false) == address + 1);
    let written = data_written(v, value);
    assert(written.bus == bus1);
    assert(written.state.registers.v == address + 1);
    let again = PpuView {
        state: PpuState {
            registers: PpuRegisters { v: address, ..written.state.registers },
            ..written.state
        },
        ..written
    };
    assert(again.bus == bus1);
    assert(ppu_read(again.bus, again.state.open_bus, address) == value);
    assert(again.state.registers.v == address);
    assert(!again.state.registers.vram_increment);
    if address < 0x3f00 {
        let first = data_read(again);
        assert(first.state.ppudata_buffer == value);
        assert(first.state.registers.v == address + 1);
        if address < 0x3eff {
            assert(data_value(first) == value);
        }
    } else {
        assert(data_value(again) == value);
    }
}

/// A byte written to one of the four palette cells that have two
/// addresses is read back under both, also through the mirrors of the
/// palette up to `$3FFF`.
pub proof fn lemma_palette_alias_on_bus(bs: Seq<u8>, ptr: u16, v: u8)
    requires
        bs.len() == 32,
        ptr == 0x3f00 || ptr == 0x3f04 || ptr == 0x3f08 || ptr == 0x3f0c,
    ensures
        <PaletteControl as AddressSpace>::value_at(
            <PaletteControl as AddressSpace>::after_poke(bs, (ptr + 0x10) as u16, v),
            ptr,
        ) == v,
        <PaletteControl as AddressSpace>::value_at(
            <PaletteControl as AddressSpace>::after_poke(bs, ptr, v),
            (ptr + 0x10) as u16,
        ) == v,
        <PaletteControl as AddressSpace>::maps(bs, ptr),
        <PaletteControl as AddressSpace>::maps(bs, (ptr + 0x10) as u16),
{
}

/// The state after `n` ticks of the counters.
pub open spec fn ticks(s: PpuState, n: nat) -> PpuState
    decreases n,
{
    if n == 0 {
        s
    } else {
        ticked(ticks(s, (n - 1) as nat))
    }
}

/// The dots of the frame that starts in state `s`: 262 lines of 341
/// dots, less one on an odd frame with rendering enabled.
pub open spec fn frame_dots(s: PpuState) -> nat {
    if (s.registers.sprites_enabled || s.registers.background_enabled) && s.frame_parity {
        89341
    } else {
        89342
    }
}

/// From dot 0 of line 0, `n` ticks within the frame lead to dot `n mod
/// 341` of line `n / 341`, and the frame is over after `frame_dots`
/// ticks and not before: the position is back at dot 0 of line 0, the
/// frame counter has advanced by one and the parity has flipped.
pub proof fn lemma_frame_length(s: PpuState, n: nat)
    requires
        s.scanline == 0,
        s.cycle == 0,
        n <= frame_dots(s),
    ensures
        ticks(s, n).registers == s.registers,
        n < frame_dots(s) ==> {
            &&& ticks(s, n).scanline == n / 341
            &&& ticks(s, n).cycle == n % 341
            &&& ticks(s, n).frame == s.frame
            &&& ticks(s, n).frame_parity == s.frame_parity
        },
        n == frame_dots(s) ==> {
            &&& ticks(s, n).scanline == 0
            &&& ticks(s, n).cycle == 0
            &&& ticks(s, n).frame == s.frame.wrapping_add(1)
            &&& ticks(s, n).frame_parity == !s.frame_parity
        },
    decreases n,
{
    if n > 0 {
        lemma_frame_length(s, (n - 1) as nat);
    }
}

/// The position and the frame counter advance without regard to the rest
/// of the state: a position inside the frame stays inside.
pub proof fn lemma_position_stays_in_frame(s: PpuState)
    requires
        s.scanline <= 261,
        s.cycle <= 340,
    ensures
        ticked(s).scanline <= 261,
        ticked(s).cycle <= 340,
        vblank_stepped(ticked(s)).scanline == ticked(s).scanline,
        vblank_stepped(ticked(s)).cycle == ticked(s).cycle,
{
}

/// VBlank is raised at dot 1 of line 241 and cleared, with sprite-0 hit
/// and sprite overflow, at dot 1 of the pre-render line; at every other
/// dot the three flags are left alone.
pub proof fn lemma_vblank_window(s: PpuState)
    ensures
        s.scanline == 241 && s.cycle == 1 ==> vblank_stepped(s).nmi_occurred,
        s.scanline == 261 && s.cycle == 1 ==> !vblank_stepped(s).nmi_occurred && !vblank_stepped(
            s,
        ).sprite0_hit && !vblank_stepped(s).sprite_overflow,
        !(s.cycle == 1 && (s.scanline == 241 || s.scanline == 261)) ==> vblank_stepped(s) == s,
{
}

/// The interrupt follows VBlank by fifteen dots, and only if the
/// interrupt is still enabled and VBlank still up when they have passed.
pub proof fn lemma_nmi_delay(s: PpuState, n: nat)
    requires
        s.clocks_until_nmi == 15,
        !s.is_vblank_nmi,
        n <= 15,
    ensures
        n < 15 ==> !nmi_ticks(s, n).is_vblank_nmi && nmi_ticks(s, n).clocks_until_nmi == 15 - n,
        n == 15 ==> nmi_ticks(s, n).is_vblank_nmi == (s.generate_vblank_nmi && s.nmi_occurred),
        nmi_ticks(s, n).generate_vblank_nmi == s.generate_vblank_nmi,
        nmi_ticks(s, n).nmi_occurred == s.nmi_occurred,
    decreases n,
{
    if n > 0 {
        lemma_nmi_delay(s, (n - 1) as nat);
    }
}

/// The state after the countdown to the interrupt advanced by `n` dots.
pub open spec fn nmi_ticks(s: PpuState, n: nat) -> PpuState
    decreases n,
{
    if n == 0 {
        s
    } else {
        nmi_counted(nmi_ticks(s, (n - 1) as nat))
    }
}

/// A sprite-0 hit is raised only by an opaque pixel of sprite 0 over an
/// opaque background pixel, with both kinds of rendering enabled, not in
/// column 0, and not in columns 0 to 7 while a leftmost column is masked.
pub proof fn lemma_sprite0_hit_conditions(v: PpuView, x: u16)
    requires
        !v.state.sprite0_hit,
        pixel_rendered(v, x).state.sprite0_hit,
    ensures
        v.state.registers.sprites_enabled,
        v.state.registers.background_enabled,
        x >= 1,
        !v.state.registers.show_leftmost_background || !v.state.registers.show_leftmost_sprite
            ==> x >= 8,
        sprite_at_column(v, x) is Some,
        v.sprites[sprite_at_column(v, x)->0].index == 0,
        slot_opaque_at(v.sprites[sprite_at_column(v, x)->0], x),
        background_color(v.state, x) % 4 != 0,
{
    lemma_first_opaque(v.sprites, x, 0);
}

/// The first opaque slot, if there is one, is opaque, and no slot before it is.
pub proof fn lemma_first_opaque(sprites: Seq<SpriteSlot>, x: u16, from: int)
    requires
        0 <= from <= sprites.len(),
    ensures
        from <= first_opaque_slot(sprites, x, from) <= sprites.len(),
        first_opaque_slot(sprites, x, from) < sprites.len() ==> slot_opaque_at(
            sprites[first_opaque_slot(sprites, x, from)],
            x,
        ),
        forall|j: int|
            from <= j < first_opaque_slot(sprites, x, from) ==> !slot_opaque_at(
                #[trigger] sprites[j],
                x,
            ),
    decreases sprites.len() - from,
{
    if from < sprites.len() && !slot_opaque_at(sprites[from], x) {
        lemma_first_opaque(sprites, x, from + 1);
    }
}

/// Sprite memory after the bytes of `page` from position `from` on were
/// stored one after another from address `ptr` on, within a byte.
pub open spec fn oam_filled(oam: Seq<u8>, ptr: int, page: Seq<u8>, from: int) -> Seq<u8>
    decreases page.len() - from,
{
    if from < 0 || from >= page.len() {
        oam
    } else {
        oam_filled(oam_stored(oam, (ptr % 256) as u8, page[from]), ptr + 1, page, from + 1)
    }
}

/// A sprite transfer changes sprite memory and the sprite address and
/// nothing else.
pub proof fn lemma_dma_touches_oam_only(v: PpuView, page: Seq<u8>, from: int)
    requires
        0 <= from <= page.len(),
    ensures
        dma_written(v, page, from).state == (PpuState {
            oam_ptr: ((v.state.oam_ptr + (page.len() - from)) % 256) as u8,
            ..v.state
        }),
        dma_written(v, page, from).oam == oam_filled(v.oam, v.state.oam_ptr as int, page, from),
        dma_written(v, page, from).display == v.display,
        dma_written(v, page, from).bus == v.bus,
        dma_written(v, page, from).sprites == v.sprites,
    decreases page.len() - from,
{
    if from < page.len() {
        let next = oam_data_written(v, page[from]);
        let p = v.state.oam_ptr;
        assert(next.state == (PpuState { oam_ptr: ((p + 1) % 256) as u8, ..v.state }));
        assert(next.oam == oam_stored(v.oam, p, page[from]));
        assert(next.display == v.display && next.bus == v.bus && next.sprites == v.sprites);
        lemma_dma_touches_oam_only(next, page, from + 1);
        lemma_oam_filled_shift(next.oam, p + 1, next.state.oam_ptr as int, page, from + 1);
        assert(dma_written(v, page, from) == dma_written(next, page, from + 1));
        assert(((p + 1) % 256 + (page.len() - from - 1)) % 256 == (p + (page.len() - from))
            % 256);
        assert(oam_filled(v.oam, p as int, page, from) == oam_filled(
            next.oam,
            p + 1,
            page,
            from + 1,
        ));
    }
}

/// Filling from two addresses that are equal within a byte gives the same.
proof fn lemma_oam_filled_shift(oam: Seq<u8>, p: int, q: int, page: Seq<u8>, from: int)
    requires
        p % 256 == q % 256,
    ensures
        oam_filled(oam, p, page, from) == oam_filled(oam, q, page, from),
    decreases page.len() - from,
{
    if 0 <= from < page.len() {
        lemma_oam_filled_shift(
            oam_stored(oam, (p % 256) as u8, page[from]),
            p + 1,
            q + 1,
            page,
            from + 1,
        );
    }
}

/// Filling a sprite memory of 256 bytes keeps what was stored before
/// position `from` of the page and stores the rest of the page behind it.
proof fn lemma_oam_filled(oam: Seq<u8>, start: int, page: Seq<u8>, from: int)
    requires
        oam.len() == 256,
        page.len() == 256,
        0 <= from <= 256,
        0 <= start < 256,
        forall|i: int| 0 <= i < from ==> oam[(start + i) % 256] == page[i],
    ensures
        oam_filled(oam, start + from, page, from).len() == 256,
        forall|i: int|
            0 <= i < 256 ==> oam_filled(oam, start + from, page, from)[(start + i) % 256] == page[i],
    decreases 256 - from,
{
    if from < 256 {
        let next = oam_stored(oam, ((start + from) % 256) as u8, page[from]);
        assert forall|i: int| 0 <= i < from + 1 implies next[(start + i) % 256] == page[i] by {
            if i < from {
                assert((start + i) % 256 != (start + from) % 256);
            }
        }
        lemma_oam_filled(next, start, page, from + 1);
    }
}

/// A sprite transfer of 256 bytes into a sprite memory of 256 bytes puts
/// byte `i` of the page at the sprite address plus `i`, within a byte, and
/// leaves the sprite address where it was. From sprite address 0, sprite
/// memory equals the page.
pub proof fn lemma_dma_fills_oam(v: PpuView, page: Seq<u8>)
    requires
        v.oam.len() == 256,
        page.len() == 256,
    ensures
        dma_written(v, page, 0).oam.len() == 256,
        dma_written(v, page, 0).state == v.state,
        forall|i: int|
            0 <= i < 256 ==> dma_written(v, page, 0).oam[(v.state.oam_ptr + i) % 256] == page[i],
        v.state.oam_ptr == 0 ==> dma_written(v, page, 0).oam == page,
        dma_written(v, page, 0).display == v.display,
        dma_written(v, page, 0).bus == v.bus,
{
    lemma_dma_touches_oam_only(v, page, 0);
    lemma_oam_filled(v.oam, v.state.oam_ptr as int, page, 0);
    let filled = oam_filled(v.oam, v.state.oam_ptr as int, page, 0);
    if v.state.oam_ptr == 0 {
        assert forall|i: int| 0 <= i < 256 implies filled[i] == page[i] by {
            assert((0 + i) % 256 == i);
        }
        assert(filled =~= page);
    }
}


/// Whether two states agree on the position in the frame, the frame
/// counter and parity, and the enables of rendering.
pub open spec fn same_position(a: PpuState, b: PpuState) -> bool {
    &&& a.scanline == b.scanline
    &&& a.cycle == b.cycle
    &&& a.frame == b.frame
    &&& a.frame_parity == b.frame_parity
    &&& a.registers.sprites_enabled == b.registers.sprites_enabled
    &&& a.registers.background_enabled == b.registers.background_enabled
}

/// Drawing a pixel touches the frame at one place and the sprite-0 flag.
pub proof fn lemma_pixel_frame(v: PpuView, x: u16)
    ensures
        same_position(pixel_rendered(v, x).state, v.state),
        pixel_rendered(v, x).display.len() == v.display.len(),
        pixel_rendered(v, x).oam == v.oam,
        pixel_rendered(v, x).bus == v.bus,
        pixel_rendered(v, x).sprites == v.sprites,
{
}

/// Shifting, fetching and scrolling touch the shifters, the latches and
/// the current address.
pub proof fn lemma_fetch_frame(s: PpuState, bus: Seq<MappingView>)
    ensures
        same_position(fetched(shifted(s), bus), s),
        same_position(scrolled(s), s),
{
}

/// The background work of a dot leaves the position alone.
pub proof fn lemma_background_frame(v: PpuView)
    ensures
        same_position(background_stepped(v).state, v.state),
        background_stepped(v).display.len() == v.display.len(),
        background_stepped(v).oam == v.oam,
        background_stepped(v).bus == v.bus,
{
    if is_visible_line(v.state) && is_visible_cycle(v.state) {
        lemma_pixel_frame(v, (v.state.cycle - 1) as u16);
    }
    let v1 = if is_visible_line(v.state) && is_visible_cycle(v.state) {
        pixel_rendered(v, (v.state.cycle - 1) as u16)
    } else {
        v
    };
    lemma_fetch_frame(v1.state, v1.bus);
    let s2 = if is_fetch_line(v1.state) && is_fetch_cycle(v1.state) {
        fetched(shifted(v1.state), v1.bus)
    } else {
        v1.state
    };
    lemma_fetch_frame(s2, v1.bus);
}

/// The sprite work of a dot leaves the position alone.
pub proof fn lemma_sprite_frame(v: PpuView)
    ensures
        same_position(sprite_stepped(v).state, v.state),
        sprite_stepped(v).display == v.display,
        sprite_stepped(v).oam == v.oam,
        sprite_stepped(v).bus == v.bus,
        v.sprites.len() <= 8 ==> sprite_stepped(v).sprites.len() <= 8,
{
}

/// One dot moves the position as one tick of the counters does, whatever
/// else the dot does, and leaves the enables of rendering, sprite memory,
/// the bus and the size of the frame alone.
pub proof fn lemma_dot_position(v: PpuView)
    ensures
        same_position(ppu_dot(v).state, ticked(v.state)),
        ppu_dot(v).display.len() == v.display.len(),
        ppu_dot(v).oam == v.oam,
        ppu_dot(v).bus == v.bus,
{
    let v1 = PpuView { state: ticked(v.state), ..v };
    lemma_background_frame(v1);
    lemma_sprite_frame(background_stepped(v1));
}

/// A picture processor that is well formed stays so with every dot.
pub proof fn lemma_dot_keeps_wf(v: PpuView)
    requires
        ppu_wf(v),
    ensures
        ppu_wf(ppu_dot(v)),
{
    lemma_dot_position(v);
    lemma_position_stays_in_frame(v.state);
    let v1 = PpuView { state: ticked(v.state), ..v };
    lemma_background_frame(v1);
    lemma_sprite_frame(background_stepped(v1));
}

} // verus!
