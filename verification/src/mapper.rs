//! The address-space fabric: memories, mirrors and range tables that are
//! composed into the 16-bit view each bus master sees.

use crate::ppu::PaletteControl;
use crate::serialization::{
    blob_at, blob_bytes, flag_at, flag_bytes, get_blob, get_flag, get_u16, get_u64, le_bytes,
    lemma_blob_at, lemma_number_at, put_blob, put_flag, put_u16, put_u64, u16_at, u64_at,
    LoadError,
};
use vstd::prelude::*;

verus! {

/// Why a bus access was not carried out.
#[derive(Clone, Copy, Debug, PartialEq, Eq, Structural)]
pub enum BusError {
    /// No component answers reads at the address.
    UnmappedRead,
    /// No component accepts writes at the address.
    UnmappedWrite,
}

/// What a read returns, given whether the address is mapped and the byte stored there.
pub open spec fn read_outcome(mapped: bool, value: u8) -> Result<u8, BusError> {
    if mapped {
        Ok(value)
    } else {
        Err(BusError::UnmappedRead)
    }
}

/// What a write returns, given whether the address is mapped.
pub open spec fn write_outcome(mapped: bool) -> Result<(), BusError> {
    if mapped {
        Ok(())
    } else {
        Err(BusError::UnmappedWrite)
    }
}

/// The little-endian word made of two bytes.
pub open spec fn word_of(low: u8, high: u8) -> u16 {
    (low + 256 * high) as u16
}

/// `ptr` moved by the signed offset `os`, wrapping around the 16-bit space.
pub open spec fn offset_address(ptr: u16, os: i16) -> u16 {
    ((ptr as int + os as int) % 0x1_0000) as u16
}

/// The successor of `ptr`, wrapping around the 16-bit space.
pub open spec fn next_address(ptr: u16) -> u16 {
    if ptr == 0xFFFF {
        0
    } else {
        (ptr + 1) as u16
    }
}

/// Computes [`offset_address`].
pub fn add_offset(ptr: u16, os: i16) -> (r: u16)
    ensures
        r == offset_address(ptr, os),
{
    let wide: i32 = ptr as i32 + os as i32;
    if wide < 0 {
        (wide + 0x1_0000) as u16
    } else if wide >= 0x1_0000 {
        (wide - 0x1_0000) as u16
    } else {
        wide as u16
    }
}

/// Computes [`word_of`].
pub fn make_word(low: u8, high: u8) -> (r: u16)
    ensures
        r == word_of(low, high),
{
    assert((low as u16) | ((high as u16) << 8) == low + 256 * high) by (bit_vector);
    (low as u16) | ((high as u16) << 8)
}

/// A component that answers byte reads and writes over 16-bit addresses.
///
/// The view of a component is its mathematical state; the four spec
/// functions say, over that state, which addresses are mapped, what a read
/// returns and how reads and writes change the state.
pub trait AddressSpace: View + Sized {
    /// Whether the component answers at `ptr`.
    spec fn maps(v: Self::V, ptr: u16) -> bool;

    /// The byte a read of the mapped address `ptr` returns.
    spec fn value_at(v: Self::V, ptr: u16) -> u8;

    /// The state after a read of `ptr`.
    spec fn after_peek(v: Self::V, ptr: u16) -> Self::V;

    /// The state after `value` was written to `ptr`.
    spec fn after_poke(v: Self::V, ptr: u16, value: u8) -> Self::V;

    /// Reads the byte at `ptr`.
    fn peek(&mut self, ptr: u16) -> (r: Result<u8, BusError>)
        ensures
            r == read_outcome(Self::maps(old(self)@, ptr), Self::value_at(old(self)@, ptr)),
            final(self)@ == Self::after_peek(old(self)@, ptr),
    ;

    /// Writes `v` to `ptr`.
    fn poke(&mut self, ptr: u16, v: u8) -> (r: Result<(), BusError>)
        ensures
            r == write_outcome(Self::maps(old(self)@, ptr)),
            final(self)@ == Self::after_poke(old(self)@, ptr, v),
    ;

    /// Reads the little-endian word at `ptr` and `ptr + 1`: the low byte
    /// first, the high byte in the state the first read left. Stops at the
    /// first read that fails.
    fn peek16(&mut self, ptr: u16) -> (r: Result<u16, BusError>)
        ensures
            r == (if !Self::maps(old(self)@, ptr) {
                Err(BusError::UnmappedRead)
            } else if !Self::maps(Self::after_peek(old(self)@, ptr), next_address(ptr)) {
                Err(BusError::UnmappedRead)
            } else {
                Ok(
                    word_of(
                        Self::value_at(old(self)@, ptr),
                        Self::value_at(Self::after_peek(old(self)@, ptr), next_address(ptr)),
                    ),
                )
            }),
            final(self)@ == (if !Self::maps(old(self)@, ptr) {
                Self::after_peek(old(self)@, ptr)
            } else {
                Self::after_peek(Self::after_peek(old(self)@, ptr), next_address(ptr))
            }),
    {
        match self.peek(ptr) {
            Err(e) => Err(e),
            Ok(low) => match self.peek(ptr.wrapping_add(1)) {
                Err(e) => Err(e),
                Ok(high) => Ok(make_word(low, high)),
            },
        }
    }

    /// Reads the byte at `ptr + os`.
    fn peek_offset(&mut self, ptr: u16, os: i16) -> (r: Result<u8, BusError>)
        ensures
            r == read_outcome(
                Self::maps(old(self)@, offset_address(ptr, os)),
                Self::value_at(old(self)@, offset_address(ptr, os)),
            ),
            final(self)@ == Self::after_peek(old(self)@, offset_address(ptr, os)),
    {
        self.peek(add_offset(ptr, os))
    }

    /// Reads the little-endian word at `ptr + os`.
    fn peek_offset16(&mut self, ptr: u16, os: i16) -> (r: Result<u16, BusError>)
        ensures
            r == (if !Self::maps(old(self)@, offset_address(ptr, os)) {
                Err(BusError::UnmappedRead)
            } else if !Self::maps(Self::after_peek(old(self)@, offset_address(ptr, os)), next_address(offset_address(ptr, os))) {
                Err(BusError::UnmappedRead)
            } else {
                Ok(
                    word_of(
                        Self::value_at(old(self)@, offset_address(ptr, os)),
                        Self::value_at(Self::after_peek(old(self)@, offset_address(ptr, os)), next_address(offset_address(ptr, os))),
                    ),
                )
            }),
            final(self)@ == (if !Self::maps(old(self)@, offset_address(ptr, os)) {
                Self::after_peek(old(self)@, offset_address(ptr, os))
            } else {
                Self::after_peek(Self::after_peek(old(self)@, offset_address(ptr, os)), next_address(offset_address(ptr, os)))
            }),
    {
        self.peek16(add_offset(ptr, os))
    }

    /// Writes `v` to `ptr + os`.
    fn poke_offset(&mut self, ptr: u16, os: i16, v: u8) -> (r: Result<(), BusError>)
        ensures
            r == write_outcome(Self::maps(old(self)@, offset_address(ptr, os))),
            final(self)@ == Self::after_poke(old(self)@, offset_address(ptr, os), v),
    {
        self.poke(add_offset(ptr, os), v)
    }
}


/// Read-write memory. Its view is the bytes it holds; address `p` is mapped
/// while `p` is below the size.
pub struct Ram {
    bs: Vec<u8>,
}

impl View for Ram {
    type V = Seq<u8>;

    closed spec fn view(&self) -> Seq<u8> {
        self.bs@
    }
}

impl Ram {
    /// A memory of `size` zero bytes.
    pub fn new(size: usize) -> (r: Ram)
        ensures
            r@ == Seq::new(size as nat, |i: int| 0u8),
    {
        let mut bs: Vec<u8> = Vec::new();
        let mut i: usize = 0;
        while i < size
            invariant
                i <= size,
                bs@ == Seq::new(i as nat, |j: int| 0u8),
            decreases size - i,
        {
            bs.push(0);
            i = i + 1;
        }
        Ram { bs }
    }

    /// The number of bytes held.
    pub fn len(&self) -> (n: usize)
        ensures
            n == self@.len(),
    {
        self.bs.len()
    }

    /// The byte at `ptr`, where there is one.
    pub fn read(&self, ptr: u16) -> (r: Result<u8, BusError>)
        ensures
            r == read_outcome(ptr < self@.len(), self@[ptr as int]),
    {
        if (ptr as usize) < self.bs.len() {
            Ok(self.bs[ptr as usize])
        } else {
            Err(BusError::UnmappedRead)
        }
    }

    /// Stores `v` at `ptr`, where there is a byte.
    pub fn write(&mut self, ptr: u16, v: u8) -> (r: Result<(), BusError>)
        ensures
            r == write_outcome(ptr < old(self)@.len()),
            final(self)@ == ram_written(old(self)@, ptr, v),
    {
        if (ptr as usize) < self.bs.len() {
            self.bs[ptr as usize] = v;
            Ok(())
        } else {
            Err(BusError::UnmappedWrite)
        }
    }
}

/// The bytes of a read-write memory after `v` was written to `ptr`.
pub open spec fn ram_written(bs: Seq<u8>, ptr: u16, v: u8) -> Seq<u8> {
    if ptr < bs.len() {
        bs.update(ptr as int, v)
    } else {
        bs
    }
}

impl AddressSpace for Ram {
    open spec fn maps(v: Seq<u8>, ptr: u16) -> bool {
        ptr < v.len()
    }

    open spec fn value_at(v: Seq<u8>, ptr: u16) -> u8 {
        v[ptr as int]
    }

    open spec fn after_peek(v: Seq<u8>, ptr: u16) -> Seq<u8> {
        v
    }

    open spec fn after_poke(v: Seq<u8>, ptr: u16, value: u8) -> Seq<u8> {
        ram_written(v, ptr, value)
    }

    fn peek(&mut self, ptr: u16) -> (r: Result<u8, BusError>) {
        self.read(ptr)
    }

    fn poke(&mut self, ptr: u16, v: u8) -> (r: Result<(), BusError>) {
        self.write(ptr, v)
    }
}

/// Read-only memory. Its view is the bytes it holds; writes to it are dropped.
pub struct Rom {
    bs: Vec<u8>,
}

impl View for Rom {
    type V = Seq<u8>;

    closed spec fn view(&self) -> Seq<u8> {
        self.bs@
    }
}

impl Rom {
    /// A read-only memory holding `bs`.
    pub fn new(bs: Vec<u8>) -> (r: Rom)
        ensures
            r@ == bs@,
    {
        Rom { bs: bs }
    }

    /// The byte at `ptr`, where there is one.
    pub fn read(&self, ptr: u16) -> (r: Result<u8, BusError>)
        ensures
            r == read_outcome(ptr < self@.len(), self@[ptr as int]),
    {
        if (ptr as usize) < self.bs.len() {
            Ok(self.bs[ptr as usize])
        } else {
            Err(BusError::UnmappedRead)
        }
    }

    /// Drops the write; reports whether `ptr` is an address of the memory.
    pub fn write(&mut self, ptr: u16, v: u8) -> (r: Result<(), BusError>)
        ensures
            r == write_outcome(ptr < old(self)@.len()),
            final(self)@ == old(self)@,
    {
        if (ptr as usize) < self.bs.len() {
            Ok(())
        } else {
            Err(BusError::UnmappedWrite)
        }
    }
}

impl AddressSpace for Rom {
    open spec fn maps(v: Seq<u8>, ptr: u16) -> bool {
        ptr < v.len()
    }

    open spec fn value_at(v: Seq<u8>, ptr: u16) -> u8 {
        v[ptr as int]
    }

    open spec fn after_peek(v: Seq<u8>, ptr: u16) -> Seq<u8> {
        v
    }

    open spec fn after_poke(v: Seq<u8>, ptr: u16, value: u8) -> Seq<u8> {
        v
    }

    fn peek(&mut self, ptr: u16) -> (r: Result<u8, BusError>) {
        self.read(ptr)
    }

    fn poke(&mut self, ptr: u16, v: u8) -> (r: Result<(), BusError>) {
        self.write(ptr, v)
    }
}

/// A component that answers every read with zero and drops every write.
pub struct NullAddressSpace {}

impl View for NullAddressSpace {
    type V = ();

    open spec fn view(&self) -> () {
        ()
    }
}

impl NullAddressSpace {
    /// A fresh one, as at power-on.
    pub fn new() -> (r: NullAddressSpace) {
        NullAddressSpace {  }
    }
}

impl AddressSpace for NullAddressSpace {
    open spec fn maps(v: (), ptr: u16) -> bool {
        true
    }

    open spec fn value_at(v: (), ptr: u16) -> u8 {
        0
    }

    open spec fn after_peek(v: (), ptr: u16) -> () {
        ()
    }

    open spec fn after_poke(v: (), ptr: u16, value: u8) -> () {
        ()
    }

    fn peek(&mut self, ptr: u16) -> (r: Result<u8, BusError>) {
        Ok(0)
    }

    fn poke(&mut self, ptr: u16, v: u8) -> (r: Result<(), BusError>) {
        Ok(())
    }
}

/// The memories a range table can hold, alone or layered.
pub enum Device {
    Ram(Ram),
    Rom(Rom),
    Null(NullAddressSpace),
    Palette(PaletteControl),
    Mirrored(Box<MirroredAddressSpace>),
    Mapper(Mapper),
}

/// A window `[extended_begin, extended_end]` that repeats the base range
/// `[begin, end]` of an inner component.
pub struct MirroredAddressSpace {
    base: Device,
    begin: u16,
    end: u16,
    extended_begin: u16,
    extended_end: u16,
    keep_original: bool,
}

/// One entry of a range table: the addresses `[begin, end]` go to `space`.
pub struct Mapping {
    begin: u16,
    end: u16,
    space: Device,
    keep_original: bool,
}

/// An ordered range table: an address goes to the first entry whose range holds it.
pub struct Mapper {
    mappings: Vec<Mapping>,
}

/// The mathematical state of a [`Device`].
pub enum DeviceView {
    Ram(Seq<u8>),
    Rom(Seq<u8>),
    Null,
    Palette(Seq<u8>),
    Mirrored(Box<MirroredView>),
    Mapper(Seq<MappingView>),
}

/// The mathematical state of a [`MirroredAddressSpace`].
pub struct MirroredView {
    pub base: DeviceView,
    pub begin: u16,
    pub end: u16,
    pub extended_begin: u16,
    pub extended_end: u16,
    pub keep_original: bool,
}

/// The mathematical state of a [`Mapping`].
pub struct MappingView {
    pub begin: u16,
    pub end: u16,
    pub space: DeviceView,
    pub keep_original: bool,
}

/// The mathematical state of a device.
pub closed spec fn device_view(d: Device) -> DeviceView
    decreases d,
{
    match d {
        Device::Ram(m) => DeviceView::Ram(m@),
        Device::Rom(m) => DeviceView::Rom(m@),
        Device::Null(_) => DeviceView::Null,
        Device::Palette(p) => DeviceView::Palette(p@),
        Device::Mirrored(m) => DeviceView::Mirrored(
            Box::new(
                MirroredView {
                    base: device_view(m.base),
                    begin: m.begin,
                    end: m.end,
                    extended_begin: m.extended_begin,
                    extended_end: m.extended_end,
                    keep_original: m.keep_original,
                },
            ),
        ),
        Device::Mapper(t) => DeviceView::Mapper(
            Seq::new(
                t.mappings@.len(),
                |i: int|
                    if 0 <= i < t.mappings@.len() {
                        MappingView {
                            begin: t.mappings@[i].begin,
                            end: t.mappings@[i].end,
                            space: device_view(t.mappings@[i].space),
                            keep_original: t.mappings@[i].keep_original,
                        }
                    } else {
                        arbitrary()
                    },
            ),
        ),
    }
}

impl View for Device {
    type V = DeviceView;

    closed spec fn view(&self) -> DeviceView {
        device_view(*self)
    }
}

impl View for MirroredAddressSpace {
    type V = MirroredView;

    closed spec fn view(&self) -> MirroredView {
        MirroredView {
            base: self.base@,
            begin: self.begin,
            end: self.end,
            extended_begin: self.extended_begin,
            extended_end: self.extended_end,
            keep_original: self.keep_original,
        }
    }
}

impl View for Mapping {
    type V = MappingView;

    closed spec fn view(&self) -> MappingView {
        MappingView {
            begin: self.begin,
            end: self.end,
            space: self.space@,
            keep_original: self.keep_original,
        }
    }
}

impl View for Mapper {
    type V = Seq<MappingView>;

    closed spec fn view(&self) -> Seq<MappingView> {
        Seq::new(self.mappings@.len(), |i: int| self.mappings@[i]@)
    }
}

/// Whether the window of `m` holds `ptr` and `m` has a base range to repeat.
pub open spec fn in_window(m: MirroredView, ptr: u16) -> bool {
    m.extended_begin <= ptr <= m.extended_end && m.begin <= m.end
}

/// The address the inner component of `m` sees for `ptr`: the offset into
/// the window, taken modulo the width of the base range, counted from the
/// start of the base range or, where the inner component is addressed from
/// zero, from zero.
pub open spec fn mirrored_address(m: MirroredView, ptr: u16) -> u16 {
    ((ptr - m.extended_begin) % (m.end - m.begin + 1) + (if m.keep_original {
        m.begin as int
    } else {
        0
    })) as u16
}

/// Whether the range of `e` holds `ptr`.
pub open spec fn in_range(e: MappingView, ptr: u16) -> bool {
    e.begin <= ptr <= e.end
}

/// The address the component of `e` sees for `ptr`.
pub open spec fn local_address(e: MappingView, ptr: u16) -> u16 {
    if e.keep_original {
        ptr
    } else {
        (ptr - e.begin) as u16
    }
}

/// The index of the first entry at or after `from` whose range holds `ptr`;
/// the number of entries if there is none.
pub open spec fn first_match(es: Seq<MappingView>, ptr: u16, from: int) -> int
    decreases es.len() - from,
{
    if from < 0 || from >= es.len() {
        es.len() as int
    } else if in_range(es[from], ptr) {
        from
    } else {
        first_match(es, ptr, from + 1)
    }
}

/// The palette cell that `ptr` names: its low five bits, with the four
/// sprite backdrop entries folded onto the background ones.
pub open spec fn palette_index(ptr: u16) -> int {
    if ptr == 0x3f10 {
        0x00
    } else if ptr == 0x3f14 {
        0x04
    } else if ptr == 0x3f18 {
        0x08
    } else if ptr == 0x3f1c {
        0x0c
    } else {
        ptr - 0x3f00
    }
}

/// Whether `ptr` names a cell of a palette memory holding `bs`.
pub open spec fn palette_maps(bs: Seq<u8>, ptr: u16) -> bool {
    0x3f00 <= ptr <= 0x3f1f && palette_index(ptr) < bs.len()
}

/// Whether `d` answers at `ptr`.
pub open spec fn device_maps(d: DeviceView, ptr: u16) -> bool
    decreases d,
{
    match d {
        DeviceView::Ram(bs) => ptr < bs.len(),
        DeviceView::Rom(bs) => ptr < bs.len(),
        DeviceView::Null => true,
        DeviceView::Palette(bs) => palette_maps(bs, ptr),
        DeviceView::Mirrored(m) => mirrored_maps(*m, ptr),
        DeviceView::Mapper(es) => mapper_maps(es, ptr),
    }
}

/// Whether the window of `m` holds `ptr` and the inner component answers at
/// the address it then sees.
pub open spec fn mirrored_maps(m: MirroredView, ptr: u16) -> bool
    decreases m,
{
    in_window(m, ptr) && device_maps(m.base, mirrored_address(m, ptr))
}

/// Whether some entry of `es` holds `ptr` and the component of the first
/// such entry answers at the address it then sees.
pub open spec fn mapper_maps(es: Seq<MappingView>, ptr: u16) -> bool
    decreases es,
{
    let i = first_match(es, ptr, 0);
    0 <= i < es.len() && device_maps(es[i].space, local_address(es[i], ptr))
}

/// The byte `d` holds at the mapped address `ptr`.
pub open spec fn device_value(d: DeviceView, ptr: u16) -> u8
    decreases d,
{
    match d {
        DeviceView::Ram(bs) => bs[ptr as int],
        DeviceView::Rom(bs) => bs[ptr as int],
        DeviceView::Null => 0,
        DeviceView::Palette(bs) => bs[palette_index(ptr)],
        DeviceView::Mirrored(m) => mirrored_value(*m, ptr),
        DeviceView::Mapper(es) => mapper_value(es, ptr),
    }
}

/// The byte the inner component of `m` holds at the address it sees for `ptr`.
pub open spec fn mirrored_value(m: MirroredView, ptr: u16) -> u8
    decreases m,
{
    device_value(m.base, mirrored_address(m, ptr))
}

/// The byte that the component of the first entry holding `ptr` has at the
/// address it sees for `ptr`.
pub open spec fn mapper_value(es: Seq<MappingView>, ptr: u16) -> u8
    decreases es,
{
    let i = first_match(es, ptr, 0);
    if 0 <= i < es.len() {
        device_value(es[i].space, local_address(es[i], ptr))
    } else {
        0
    }
}

/// The state of `d` after `v` was written to `ptr`: the one cell that `ptr`
/// resolves to changes if it lies in a read-write memory or a palette, and
/// nothing else does.
pub open spec fn device_written(d: DeviceView, ptr: u16, v: u8) -> DeviceView
    decreases d,
{
    match d {
        DeviceView::Ram(bs) => DeviceView::Ram(ram_written(bs, ptr, v)),
        DeviceView::Rom(bs) => d,
        DeviceView::Null => d,
        DeviceView::Palette(bs) => DeviceView::Palette(palette_written(bs, ptr, v)),
        DeviceView::Mirrored(m) => DeviceView::Mirrored(Box::new(mirrored_written(*m, ptr, v))),
        DeviceView::Mapper(es) => DeviceView::Mapper(mapper_written(es, ptr, v)),
    }
}

/// The state of `m` after a write to `ptr`: inside the window the inner
/// component takes the write at the address it sees; outside nothing changes.
pub open spec fn mirrored_written(m: MirroredView, ptr: u16, v: u8) -> MirroredView
    decreases m,
{
    if in_window(m, ptr) {
        MirroredView { base: device_written(m.base, mirrored_address(m, ptr), v), ..m }
    } else {
        m
    }
}

/// The entries `es` after a write to `ptr`: the component of the first entry
/// holding `ptr` takes the write at the address it sees; every other entry is
/// unchanged.
pub open spec fn mapper_written(es: Seq<MappingView>, ptr: u16, v: u8) -> Seq<MappingView>
    decreases es,
{
    let i = first_match(es, ptr, 0);
    if 0 <= i < es.len() {
        es.update(
            i,
            MappingView {
                space: device_written(es[i].space, local_address(es[i], ptr), v),
                ..es[i]
            },
        )
    } else {
        es
    }
}

/// The cells of a palette memory after `v` was written to `ptr`.
pub open spec fn palette_written(bs: Seq<u8>, ptr: u16, v: u8) -> Seq<u8> {
    if palette_maps(bs, ptr) {
        bs.update(palette_index(ptr), v)
    } else {
        bs
    }
}


impl Device {
    /// A read-write memory as a device.
    pub fn ram(ram: Ram) -> (d: Device)
        ensures
            d@ == DeviceView::Ram(ram@),
    {
        Device::Ram(ram)
    }

    /// A read-only memory as a device.
    pub fn rom(rom: Rom) -> (d: Device)
        ensures
            d@ == DeviceView::Rom(rom@),
    {
        Device::Rom(rom)
    }

    /// The device that reads as zero and drops writes.
    pub fn null() -> (d: Device)
        ensures
            d@ == DeviceView::Null,
    {
        Device::Null(NullAddressSpace::new())
    }

    /// A palette memory as a device.
    pub fn palette(palette: PaletteControl) -> (d: Device)
        ensures
            d@ == DeviceView::Palette(palette@),
    {
        Device::Palette(palette)
    }

    /// A mirror as a device.
    pub fn mirrored(mirrored: MirroredAddressSpace) -> (d: Device)
        ensures
            d@ == DeviceView::Mirrored(Box::new(mirrored@)),
    {
        Device::Mirrored(Box::new(mirrored))
    }

    /// A range table as a device.
    pub fn mapper(mapper: Mapper) -> (d: Device)
        ensures
            d@ == DeviceView::Mapper(mapper@),
    {
        let d = Device::Mapper(mapper);
        proof {
            assert(mapper@ =~= d@->Mapper_0);
        }
        d
    }

    /// The byte at `ptr`, where the device answers there.
    pub fn read(&self, ptr: u16) -> (r: Result<u8, BusError>)
        ensures
            r == read_outcome(device_maps(self@, ptr), device_value(self@, ptr)),
        decreases *self,
    {
        match self {
            Device::Ram(m) => m.read(ptr),
            Device::Rom(m) => m.read(ptr),
            Device::Null(_) => Ok(0),
            Device::Palette(p) => p.read(ptr),
            Device::Mirrored(m) => m.read(ptr),
            Device::Mapper(t) => {
                proof {
                    assert(t@ =~= self@->Mapper_0);
                }
                t.read(ptr)
            },
        }
    }

    /// Writes `v` to `ptr`, where the device answers there.
    pub fn write(&mut self, ptr: u16, v: u8) -> (r: Result<(), BusError>)
        ensures
            r == write_outcome(device_maps(old(self)@, ptr)),
            final(self)@ == device_written(old(self)@, ptr, v),
        decreases *old(self),
    {
        match self {
            Device::Ram(m) => m.write(ptr, v),
            Device::Rom(m) => m.write(ptr, v),
            Device::Null(_) => Ok(()),
            Device::Palette(p) => p.write(ptr, v),
            Device::Mirrored(m) => m.write(ptr, v),
            Device::Mapper(t) => {
                proof {
                    assert(t@ =~= old(self)@->Mapper_0);
                }
                let r = t.write(ptr, v);
                proof {
                    assert(t@ =~= device_view(Device::Mapper(*t))->Mapper_0);
                }
                r
            },
        }
    }
}

impl AddressSpace for Device {
    open spec fn maps(v: DeviceView, ptr: u16) -> bool {
        device_maps(v, ptr)
    }

    open spec fn value_at(v: DeviceView, ptr: u16) -> u8 {
        device_value(v, ptr)
    }

    open spec fn after_peek(v: DeviceView, ptr: u16) -> DeviceView {
        v
    }

    open spec fn after_poke(v: DeviceView, ptr: u16, value: u8) -> DeviceView {
        device_written(v, ptr, value)
    }

    fn peek(&mut self, ptr: u16) -> (r: Result<u8, BusError>) {
        self.read(ptr)
    }

    fn poke(&mut self, ptr: u16, v: u8) -> (r: Result<(), BusError>) {
        self.write(ptr, v)
    }
}

impl MirroredAddressSpace {
    /// A window `[extended_begin, extended_end]` onto `base` that repeats its
    /// range `[begin, end]`. With `keep_original` the inner component sees
    /// addresses of `[begin, end]`; without, addresses counted from zero.
    pub fn new(
        base: Device,
        begin: u16,
        end: u16,
        extended_begin: u16,
        extended_end: u16,
        keep_original: bool,
    ) -> (r: MirroredAddressSpace)
        ensures
            r@ == (MirroredView {
                base: base@,
                begin,
                end,
                extended_begin,
                extended_end,
                keep_original,
            }),
    {
        MirroredAddressSpace { base, begin, end, extended_begin, extended_end, keep_original }
    }

    /// The address the inner component sees for `ptr`, for `ptr` in the window.
    pub fn map_address(&self, ptr: u16) -> (r: Option<u16>)
        ensures
            r == (if in_window(self@, ptr) {
                Some(mirrored_address(self@, ptr))
            } else {
                None
            }),
    {
        if ptr < self.extended_begin || ptr > self.extended_end || self.begin > self.end {
            return None;
        }
        let width: u32 = (self.end - self.begin) as u32 + 1;
        let relptr: u32 = (ptr - self.extended_begin) as u32;
        let base: u32 = if self.keep_original {
            self.begin as u32
        } else {
            0
        };
        Some((relptr % width + base) as u16)
    }

    /// The byte at `ptr`, where the window holds it and the inner component answers.
    pub fn read(&self, ptr: u16) -> (r: Result<u8, BusError>)
        ensures
            r == read_outcome(mirrored_maps(self@, ptr), mirrored_value(self@, ptr)),
        decreases *self,
    {
        match self.map_address(ptr) {
            None => Err(BusError::UnmappedRead),
            Some(space_ptr) => self.base.read(space_ptr),
        }
    }

    /// Writes `v` to `ptr`, where the window holds it and the inner component answers.
    pub fn write(&mut self, ptr: u16, v: u8) -> (r: Result<(), BusError>)
        ensures
            r == write_outcome(mirrored_maps(old(self)@, ptr)),
            final(self)@ == mirrored_written(old(self)@, ptr, v),
        decreases *old(self),
    {
        match self.map_address(ptr) {
            None => Err(BusError::UnmappedWrite),
            Some(space_ptr) => self.base.write(space_ptr, v),
        }
    }
}

impl AddressSpace for MirroredAddressSpace {
    open spec fn maps(v: MirroredView, ptr: u16) -> bool {
        mirrored_maps(v, ptr)
    }

    open spec fn value_at(v: MirroredView, ptr: u16) -> u8 {
        mirrored_value(v, ptr)
    }

    open spec fn after_peek(v: MirroredView, ptr: u16) -> MirroredView {
        v
    }

    open spec fn after_poke(v: MirroredView, ptr: u16, value: u8) -> MirroredView {
        mirrored_written(v, ptr, value)
    }

    fn peek(&mut self, ptr: u16) -> (r: Result<u8, BusError>) {
        self.read(ptr)
    }

    fn poke(&mut self, ptr: u16, v: u8) -> (r: Result<(), BusError>) {
        self.write(ptr, v)
    }
}

impl Mapping {
    /// The address the component sees for `ptr`, for `ptr` in the range.
    pub fn map_ptr(&self, ptr: u16) -> (r: Option<u16>)
        ensures
            r == (if in_range(self@, ptr) {
                Some(local_address(self@, ptr))
            } else {
                None
            }),
    {
        if ptr >= self.begin && ptr <= self.end {
            let space_ptr = if self.keep_original {
                ptr
            } else {
                ptr - self.begin
            };
            return Some(space_ptr);
        }
        None
    }
}

/// The number of addresses in `[begin, end]`.
pub open spec fn range_size(begin: u16, end: u16) -> nat {
    if end >= begin {
        (end - begin + 1) as nat
    } else {
        0
    }
}

impl Mapper {
    /// A table without entries: no address is mapped.
    pub fn new() -> (r: Mapper)
        ensures
            r@ == Seq::<MappingView>::empty(),
    {
        Mapper { mappings: Vec::new() }
    }

    /// The number of entries.
    pub fn len(&self) -> (n: usize)
        ensures
            n == self@.len(),
    {
        self.mappings.len()
    }

    /// The first entry whose range holds `ptr`, with the address its component sees.
    pub fn lookup_address_space(&self, ptr: u16) -> (r: Option<(usize, u16)>)
        ensures
            r == (if first_match(self@, ptr, 0) < self@.len() {
                Some(
                    (
                        first_match(self@, ptr, 0) as usize,
                        local_address(self@[first_match(self@, ptr, 0)], ptr),
                    ),
                )
            } else {
                None
            }),
            first_match(self@, ptr, 0) >= 0,
    {
        let mut space_idx: usize = 0;
        while space_idx < self.mappings.len()
            invariant
                0 <= space_idx <= self.mappings.len(),
                self@.len() == self.mappings.len(),
                first_match(self@, ptr, 0) == first_match(self@, ptr, space_idx as int),
            decreases self.mappings.len() - space_idx,
        {
            if let Some(space_ptr) = self.mappings[space_idx].map_ptr(ptr) {
                return Some((space_idx, space_ptr));
            }
            space_idx = space_idx + 1;
        }
        None
    }

    /// Appends an entry: `[begin, end]` goes to `space`, which sees the
    /// address itself if `use_original`, else its offset from `begin`.
    /// Entries added earlier take precedence.
    pub fn map_address_space(&mut self, begin: u16, end: u16, space: Device, use_original: bool)
        ensures
            final(self)@ == old(self)@.push(
                MappingView { begin, end, space: space@, keep_original: use_original },
            ),
    {
        self.mappings.push(Mapping { begin, end, space, keep_original: use_original });
    }

    /// Appends a fresh read-write memory of `end - begin + 1` zero bytes,
    /// one for each address of `[begin, end]`, addressed from zero; an
    /// empty range gets an empty memory.
    pub fn map_ram(&mut self, begin: u16, end: u16)
        ensures
            final(self)@ == old(self)@.push(
                MappingView {
                    begin,
                    end,
                    space: DeviceView::Ram(Seq::new(range_size(begin, end), |i: int| 0u8)),
                    keep_original: false,
                },
            ),
    {
        let size: usize = if end >= begin {
            (end - begin) as usize + 1
        } else {
            0
        };
        let space = Ram::new(size);
        self.map_address_space(begin, end, Device::Ram(space), false);
    }

    /// Appends a read-only memory holding `bytes` for `[begin, end]`,
    /// addressed from zero.
    pub fn map_rom(&mut self, begin: u16, end: u16, bytes: &[u8])
        ensures
            final(self)@ == old(self)@.push(
                MappingView { begin, end, space: DeviceView::Rom(bytes@), keep_original: false },
            ),
    {
        let space = Rom::new(slice_to_vec(bytes));
        self.map_address_space(begin, end, Device::Rom(space), false);
    }

    /// Appends an entry for `[begin, end]` that reads as zero and drops writes.
    pub fn map_null(&mut self, begin: u16, end: u16)
        ensures
            final(self)@ == old(self)@.push(
                MappingView { begin, end, space: DeviceView::Null, keep_original: true },
            ),
    {
        self.map_address_space(begin, end, Device::Null(NullAddressSpace::new()), true);
    }

    /// Appends an entry for the window `[extended_begin, extended_end]` that
    /// repeats the range `[begin, end]` of `space`.
    pub fn map_mirrored(
        &mut self,
        begin: u16,
        end: u16,
        extended_begin: u16,
        extended_end: u16,
        space: Device,
        use_original: bool,
    )
        ensures
            final(self)@ == old(self)@.push(
                MappingView {
                    begin: extended_begin,
                    end: extended_end,
                    space: DeviceView::Mirrored(
                        Box::new(
                            MirroredView {
                                base: space@,
                                begin,
                                end,
                                extended_begin,
                                extended_end,
                                keep_original: use_original,
                            },
                        ),
                    ),
                    keep_original: true,
                },
            ),
    {
        let mirrored = MirroredAddressSpace::new(
            space,
            begin,
            end,
            extended_begin,
            extended_end,
            use_original,
        );
        self.map_address_space(extended_begin, extended_end, Device::Mirrored(Box::new(mirrored)), true);
    }

    /// The byte at `ptr`, where an entry holds it and its component answers.
    pub fn read(&self, ptr: u16) -> (r: Result<u8, BusError>)
        ensures
            r == read_outcome(mapper_maps(self@, ptr), mapper_value(self@, ptr)),
        decreases *self,
    {
        match self.lookup_address_space(ptr) {
            None => Err(BusError::UnmappedRead),
            Some((space_idx, space_ptr)) => self.mappings[space_idx].space.read(space_ptr),
        }
    }

    /// Writes `v` to `ptr`, where an entry holds it and its component answers.
    pub fn write(&mut self, ptr: u16, v: u8) -> (r: Result<(), BusError>)
        ensures
            r == write_outcome(mapper_maps(old(self)@, ptr)),
            final(self)@ == mapper_written(old(self)@, ptr, v),
        decreases *old(self),
    {
        match self.lookup_address_space(ptr) {
            None => Err(BusError::UnmappedWrite),
            Some((space_idx, space_ptr)) => {
                let r = self.mappings[space_idx].space.write(space_ptr, v);
                proof {
                    let w = mapper_written(old(self)@, ptr, v);
                    assert forall|j: int| 0 <= j < self@.len() implies self@[j] == w[j] by {
                        assert(self@[j] == self.mappings@[j]@);
                        assert(old(self)@[j] == old(self).mappings@[j]@);
                    }
                    assert(self@ =~= w);
                }
                r
            },
        }
    }
}

/// Copies a slice into a fresh vector.
pub fn slice_to_vec(bytes: &[u8]) -> (v: Vec<u8>)
    ensures
        v@ == bytes@,
{
    let mut v: Vec<u8> = Vec::new();
    let mut i: usize = 0;
    while i < bytes.len()
        invariant
            i <= bytes.len(),
            v@ == bytes@.subrange(0, i as int),
        decreases bytes.len() - i,
    {
        v.push(bytes[i]);
        proof {
            assert(v@ =~= bytes@.subrange(0, i + 1));
        }
        i = i + 1;
    }
    proof {
        assert(bytes@.subrange(0, bytes.len() as int) =~= bytes@);
    }
    v
}

impl AddressSpace for Mapper {
    open spec fn maps(v: Seq<MappingView>, ptr: u16) -> bool {
        mapper_maps(v, ptr)
    }

    open spec fn value_at(v: Seq<MappingView>, ptr: u16) -> u8 {
        mapper_value(v, ptr)
    }

    open spec fn after_peek(v: Seq<MappingView>, ptr: u16) -> Seq<MappingView> {
        v
    }

    open spec fn after_poke(v: Seq<MappingView>, ptr: u16, value: u8) -> Seq<MappingView> {
        mapper_written(v, ptr, value)
    }

    fn peek(&mut self, ptr: u16) -> (r: Result<u8, BusError>) {
        self.read(ptr)
    }

    fn poke(&mut self, ptr: u16, v: u8) -> (r: Result<(), BusError>) {
        self.write(ptr, v)
    }
}


/// The direction of a recorded bus access.
#[derive(Debug, PartialEq, Eq, Structural, Copy, Clone)]
pub enum AccessType {
    Read,
    Write,
}

/// One recorded access: its position in the log, its direction, the
/// address, and the byte read or written (zero for a read that failed).
pub type LoggedAddressSpaceRecord = (usize, AccessType, u16, u8);

/// A component that passes every access on to `space` and records it.
pub struct LoggedAddressSpace<A: AddressSpace> {
    pub space: A,
    pub log: Vec<LoggedAddressSpaceRecord>,
}

/// The mathematical state of a [`LoggedAddressSpace`].
pub struct LoggedView<V> {
    pub space: V,
    pub log: Seq<LoggedAddressSpaceRecord>,
}

impl<A: AddressSpace> View for LoggedAddressSpace<A> {
    type V = LoggedView<A::V>;

    open spec fn view(&self) -> LoggedView<A::V> {
        LoggedView { space: self.space@, log: self.log@ }
    }
}

impl<A: AddressSpace> LoggedAddressSpace<A> {
    /// Wraps `space` with an empty log.
    pub fn new(space: A) -> (r: LoggedAddressSpace<A>)
        ensures
            r@ == (LoggedView { space: space@, log: Seq::<LoggedAddressSpaceRecord>::empty() }),
    {
        LoggedAddressSpace { space: space, log: Vec::new() }
    }

    /// A copy of the records made so far, oldest first.
    pub fn copy_log(&self) -> (r: Vec<LoggedAddressSpaceRecord>)
        ensures
            r@ == self@.log,
    {
        let mut out: Vec<LoggedAddressSpaceRecord> = Vec::new();
        let mut i: usize = 0;
        while i < self.log.len()
            invariant
                i <= self.log.len(),
                out@ == self.log@.subrange(0, i as int),
            decreases self.log.len() - i,
        {
            out.push(self.log[i]);
            proof {
                assert(out@ =~= self.log@.subrange(0, i + 1));
            }
            i = i + 1;
        }
        proof {
            assert(self.log@.subrange(0, self.log.len() as int) =~= self.log@);
        }
        out
    }
}

impl<A: AddressSpace> AddressSpace for LoggedAddressSpace<A> {
    open spec fn maps(v: LoggedView<A::V>, ptr: u16) -> bool {
        A::maps(v.space, ptr)
    }

    open spec fn value_at(v: LoggedView<A::V>, ptr: u16) -> u8 {
        A::value_at(v.space, ptr)
    }

    open spec fn after_peek(v: LoggedView<A::V>, ptr: u16) -> LoggedView<A::V> {
        LoggedView {
            space: A::after_peek(v.space, ptr),
            log: v.log.push(
                (
                    v.log.len() as usize,
                    AccessType::Read,
                    ptr,
                    if A::maps(v.space, ptr) {
                        A::value_at(v.space, ptr)
                    } else {
                        0
                    },
                ),
            ),
        }
    }

    open spec fn after_poke(v: LoggedView<A::V>, ptr: u16, value: u8) -> LoggedView<A::V> {
        LoggedView {
            space: A::after_poke(v.space, ptr, value),
            log: v.log.push((v.log.len() as usize, AccessType::Write, ptr, value)),
        }
    }

    fn peek(&mut self, ptr: u16) -> (r: Result<u8, BusError>) {
        let r = self.space.peek(ptr);
        let v = match r {
            Ok(v) => v,
            Err(_) => 0,
        };
        let record = (self.log.len(), AccessType::Read, ptr, v);
        self.log.push(record);
        r
    }

    fn poke(&mut self, ptr: u16, v: u8) -> (r: Result<(), BusError>) {
        let record = (self.log.len(), AccessType::Write, ptr, v);
        self.log.push(record);
        self.space.poke(ptr, v)
    }
}

/// A byte written to one of the four shared palette cells is read back
/// under both of its addresses, `$3F0x` and `$3F1x`.
pub proof fn lemma_palette_alias(bs: Seq<u8>, ptr: u16, v: u8)
    requires
        bs.len() == 32,
        ptr == 0x3f00 || ptr == 0x3f04 || ptr == 0x3f08 || ptr == 0x3f0c,
    ensures
        palette_maps(bs, ptr),
        palette_maps(bs, (ptr + 0x10) as u16),
        palette_written(bs, (ptr + 0x10) as u16, v)[palette_index(ptr)] == v,
        palette_written(bs, ptr, v)[palette_index((ptr + 0x10) as u16)] == v,
        palette_written(bs, (ptr + 0x10) as u16, v) == palette_written(bs, ptr, v),
{
}

/// A write to a palette cell leaves every cell under another index as it was.
pub proof fn lemma_palette_write_frame(bs: Seq<u8>, ptr: u16, v: u8, other: u16)
    requires
        palette_maps(bs, ptr),
        palette_maps(bs, other),
        palette_index(other) != palette_index(ptr),
    ensures
        palette_written(bs, ptr, v)[palette_index(other)] == bs[palette_index(other)],
        palette_written(bs, ptr, v).len() == bs.len(),
{
}

/// Inside its window a mirror repeats with the width of its base range:
/// two addresses of the window that are a whole number of widths apart
/// reach the same address of the inner component.
pub proof fn lemma_mirror_period(m: MirroredView, ptr: u16, other: u16, k: int)
    requires
        in_window(m, ptr),
        in_window(m, other),
        other - ptr == k * (m.end - m.begin + 1),
    ensures
        mirrored_address(m, ptr) == mirrored_address(m, other),
        mirrored_maps(m, ptr) == mirrored_maps(m, other),
        mirrored_value(m, ptr) == mirrored_value(m, other),
        mirrored_written(m, ptr, 0) == mirrored_written(m, other, 0),
{
    let w = m.end - m.begin + 1;
    let a = ptr - m.extended_begin;
    vstd::arithmetic::div_mod::lemma_mod_multiples_vanish(k, a, w);
    assert(w * k + a == other - m.extended_begin) by (nonlinear_arith)
        requires
            other - ptr == k * w,
            a == ptr - m.extended_begin,
    ;
}

/// The address a mirror hands to its inner component lies in the base
/// range, or in `[0, end - begin]` where the component is addressed from zero.
pub proof fn lemma_mirror_range(m: MirroredView, ptr: u16)
    requires
        in_window(m, ptr),
    ensures
        m.keep_original ==> m.begin <= mirrored_address(m, ptr) <= m.end,
        !m.keep_original ==> mirrored_address(m, ptr) <= m.end - m.begin,
        mirrored_address(m, ptr) == (ptr - m.extended_begin) % (m.end - m.begin + 1) + (if m.keep_original {
            m.begin as int
        } else {
            0
        }),
{
}

/// The entry that serves an address is the first whose range holds it: no
/// earlier entry holds the address, and the entry itself does.
pub proof fn lemma_first_match(es: Seq<MappingView>, ptr: u16, from: int)
    requires
        0 <= from <= es.len(),
    ensures
        from <= first_match(es, ptr, from) <= es.len(),
        first_match(es, ptr, from) < es.len() ==> in_range(es[first_match(es, ptr, from)], ptr),
        forall|j: int| from <= j < first_match(es, ptr, from) ==> !in_range(#[trigger] es[j], ptr),
    decreases es.len() - from,
{
    if from < es.len() && !in_range(es[from], ptr) {
        lemma_first_match(es, ptr, from + 1);
    }
}


/// Whether a write to `ptr` reaches a cell of `d` that keeps it: a cell of
/// a read-write memory or of a palette.
pub open spec fn device_keeps(d: DeviceView, ptr: u16) -> bool
    decreases d,
{
    match d {
        DeviceView::Ram(bs) => ptr < bs.len(),
        DeviceView::Rom(bs) => false,
        DeviceView::Null => false,
        DeviceView::Palette(bs) => palette_maps(bs, ptr),
        DeviceView::Mirrored(m) => mirrored_keeps(*m, ptr),
        DeviceView::Mapper(es) => mapper_keeps(es, ptr),
    }
}

/// Whether a write to `ptr` reaches a cell behind `m` that keeps it.
pub open spec fn mirrored_keeps(m: MirroredView, ptr: u16) -> bool
    decreases m,
{
    in_window(m, ptr) && device_keeps(m.base, mirrored_address(m, ptr))
}

/// Whether a write to `ptr` reaches a cell behind `es` that keeps it.
pub open spec fn mapper_keeps(es: Seq<MappingView>, ptr: u16) -> bool
    decreases es,
{
    let i = first_match(es, ptr, 0);
    0 <= i < es.len() && device_keeps(es[i].space, local_address(es[i], ptr))
}

/// Entries with the same ranges serve an address through the same entry.
pub proof fn lemma_first_match_ranges(es: Seq<MappingView>, fs: Seq<MappingView>, ptr: u16, from: int)
    requires
        es.len() == fs.len(),
        forall|j: int|
            0 <= j < es.len() ==> (#[trigger] es[j]).begin == fs[j].begin && es[j].end == fs[j].end,
    ensures
        first_match(es, ptr, from) == first_match(fs, ptr, from),
    decreases es.len() - from,
{
    if 0 <= from < es.len() && !in_range(es[from], ptr) {
        lemma_first_match_ranges(es, fs, ptr, from + 1);
    }
}

/// A byte written to a cell that keeps it is read back from the address
/// it was written to, and the address stays mapped and kept.
pub proof fn lemma_device_read_after_write(d: DeviceView, ptr: u16, v: u8)
    requires
        device_keeps(d, ptr),
    ensures
        device_maps(d, ptr),
        device_maps(device_written(d, ptr, v), ptr),
        device_keeps(device_written(d, ptr, v), ptr),
        device_value(device_written(d, ptr, v), ptr) == v,
    decreases d,
{
    match d {
        DeviceView::Mirrored(m) => {
            lemma_device_read_after_write(m.base, mirrored_address(*m, ptr), v);
        },
        DeviceView::Mapper(es) => {
            lemma_mapper_read_after_write(es, ptr, v);
        },
        _ => {},
    }
}

/// A byte written through a range table to a cell that keeps it is read
/// back from the address it was written to.
pub proof fn lemma_mapper_read_after_write(es: Seq<MappingView>, ptr: u16, v: u8)
    requires
        mapper_keeps(es, ptr),
    ensures
        mapper_maps(es, ptr),
        mapper_maps(mapper_written(es, ptr, v), ptr),
        mapper_keeps(mapper_written(es, ptr, v), ptr),
        mapper_value(mapper_written(es, ptr, v), ptr) == v,
    decreases es,
{
    let i = first_match(es, ptr, 0);
    let fs = mapper_written(es, ptr, v);
    lemma_device_read_after_write(es[i].space, local_address(es[i], ptr), v);
    lemma_first_match_ranges(es, fs, ptr, 0);
}

/// A write through a range table leaves the bytes of every entry but the
/// one that serves the address as they were.
pub proof fn lemma_mapper_write_frame(es: Seq<MappingView>, ptr: u16, v: u8, other: u16)
    requires
        first_match(es, other, 0) != first_match(es, ptr, 0),
    ensures
        mapper_maps(mapper_written(es, ptr, v), other) == mapper_maps(es, other),
        mapper_value(mapper_written(es, ptr, v), other) == mapper_value(es, other),
{
    lemma_first_match_ranges(es, mapper_written(es, ptr, v), other, 0);
    lemma_first_match(es, other, 0);
    lemma_first_match(es, ptr, 0);
}

/// A write to a read-only memory or to the null device changes nothing.
pub proof fn lemma_rom_write_dropped(bs: Seq<u8>, ptr: u16, v: u8)
    ensures
        device_written(DeviceView::Rom(bs), ptr, v) == DeviceView::Rom(bs),
        device_written(DeviceView::Null, ptr, v) == DeviceView::Null,
{
}


/// The bytes that stand for a device in a saved state: a memory as a byte
/// string, the null device as nothing, a mirror as its inner device and
/// its ranges, a range table as its entries.
pub open spec fn device_bytes(d: DeviceView) -> Seq<u8>
    decreases d, 0nat,
{
    match d {
        DeviceView::Ram(bs) => blob_bytes(bs),
        DeviceView::Rom(bs) => blob_bytes(bs),
        DeviceView::Null => Seq::empty(),
        DeviceView::Palette(bs) => blob_bytes(bs),
        DeviceView::Mirrored(m) => mirrored_bytes(*m),
        DeviceView::Mapper(es) => mapper_bytes(es),
    }
}

/// The bytes that stand for a mirror: its inner device, then its base
/// range, its window, and how it addresses the inner device.
pub open spec fn mirrored_bytes(m: MirroredView) -> Seq<u8>
    decreases m, 0nat,
{
    device_bytes(m.base) + le_bytes(m.begin as u64, 2) + le_bytes(m.end as u64, 2) + le_bytes(
        m.extended_begin as u64,
        2,
    ) + le_bytes(m.extended_end as u64, 2) + flag_bytes(m.keep_original)
}

/// The bytes that stand for a range table: the number of its entries in
/// 64 bits, then the entries.
pub open spec fn mapper_bytes(es: Seq<MappingView>) -> Seq<u8>
    decreases es, es.len() + 1,
{
    le_bytes(es.len() as u64, 8) + entries_bytes(es, 0)
}

/// The bytes that stand for the entries from `from` on: for each its
/// range, its device, and how it addresses the device.
pub open spec fn entries_bytes(es: Seq<MappingView>, from: int) -> Seq<u8>
    decreases es, es.len() - from,
{
    if from < 0 || from >= es.len() {
        Seq::empty()
    } else {
        le_bytes(es[from].begin as u64, 2) + le_bytes(es[from].end as u64, 2) + device_bytes(
            es[from].space,
        ) + flag_bytes(es[from].keep_original) + entries_bytes(es, from + 1)
    }
}

/// The device that `b` holds at offset `o`, built as `shape` is, with the
/// offset behind it.
pub open spec fn device_decoded(shape: DeviceView, b: Seq<u8>, o: int) -> Result<
    (DeviceView, int),
    LoadError,
>
    decreases shape, 0nat,
{
    match shape {
        DeviceView::Ram(_) => match blob_at(b, o) {
            Ok((bs, next)) => Ok((DeviceView::Ram(bs), next)),
            Err(e) => Err(e),
        },
        DeviceView::Rom(_) => match blob_at(b, o) {
            Ok((bs, next)) => Ok((DeviceView::Rom(bs), next)),
            Err(e) => Err(e),
        },
        DeviceView::Null => Ok((DeviceView::Null, o)),
        DeviceView::Palette(_) => match blob_at(b, o) {
            Ok((bs, next)) => Ok((DeviceView::Palette(bs), next)),
            Err(e) => Err(e),
        },
        DeviceView::Mirrored(m) => match mirrored_decoded(*m, b, o) {
            Ok((n, next)) => Ok((DeviceView::Mirrored(Box::new(n)), next)),
            Err(e) => Err(e),
        },
        DeviceView::Mapper(es) => match mapper_decoded(es, b, o) {
            Ok((ns, next)) => Ok((DeviceView::Mapper(ns), next)),
            Err(e) => Err(e),
        },
    }
}

/// The mirror that `b` holds at offset `o`.
pub open spec fn mirrored_decoded(shape: MirroredView, b: Seq<u8>, o: int) -> Result<
    (MirroredView, int),
    LoadError,
>
    decreases shape, 0nat,
{
    match device_decoded(shape.base, b, o) {
        Err(e) => Err(e),
        Ok((base, next)) => if next < 0 || next + 9 > b.len() {
            Err(LoadError::UnexpectedEnd)
        } else {
            Ok(
                (
                    MirroredView {
                        base: base,
                        begin: u16_at(b, next),
                        end: u16_at(b, next + 2),
                        extended_begin: u16_at(b, next + 4),
                        extended_end: u16_at(b, next + 6),
                        keep_original: flag_at(b, next + 8),
                    },
                    next + 9,
                ),
            )
        },
    }
}

/// The range table that `b` holds at offset `o`: it must have as many
/// entries as `shape`.
pub open spec fn mapper_decoded(shape: Seq<MappingView>, b: Seq<u8>, o: int) -> Result<
    (Seq<MappingView>, int),
    LoadError,
>
    decreases shape, shape.len() + 1,
{
    if o < 0 || o + 8 > b.len() {
        Err(LoadError::UnexpectedEnd)
    } else if u64_at(b, o) != shape.len() {
        Err(LoadError::Mismatch)
    } else {
        entries_decoded(shape, b, o + 8, 0)
    }
}

/// The entries from `from` on that `b` holds at offset `o`.
pub open spec fn entries_decoded(shape: Seq<MappingView>, b: Seq<u8>, o: int, from: int) -> Result<
    (Seq<MappingView>, int),
    LoadError,
>
    decreases shape, shape.len() - from,
{
    if from < 0 || from >= shape.len() {
        Ok((Seq::empty(), o))
    } else if o < 0 || o + 4 > b.len() {
        Err(LoadError::UnexpectedEnd)
    } else {
        match device_decoded(shape[from].space, b, o + 4) {
            Err(e) => Err(e),
            Ok((space, next)) => if next < 0 || next + 1 > b.len() {
                Err(LoadError::UnexpectedEnd)
            } else {
                match entries_decoded(shape, b, next + 1, from + 1) {
                    Err(e) => Err(e),
                    Ok((rest, end)) => Ok(
                        (
                            seq![
                                MappingView {
                                    begin: u16_at(b, o),
                                    end: u16_at(b, o + 2),
                                    space: space,
                                    keep_original: flag_at(b, next),
                                },
                            ] + rest,
                            end,
                        ),
                    ),
                }
            },
        }
    }
}

impl Ram {
    /// Appends the bytes that stand for the memory in a saved state.
    pub fn save(&self, out: &mut Vec<u8>)
        ensures
            final(out)@ == old(out)@ + blob_bytes(self@),
    {
        put_blob(out, &self.bs);
    }

    /// Builds the memory that `input` holds at `at`.
    pub fn load(input: &[u8], at: usize) -> (r: Result<(Ram, usize), LoadError>)
        requires
            at <= input@.len(),
        ensures
            match blob_at(input@, at as int) {
                Ok((bs, next)) => r is Ok && r->Ok_0.0@ == bs && r->Ok_0.1 == next && next
                    <= input@.len(),
                Err(e) => r == Err::<(Ram, usize), LoadError>(e),
            },
    {
        match get_blob(input, at) {
            Ok((bs, next)) => Ok((Ram { bs: bs }, next)),
            Err(e) => Err(e),
        }
    }
}

impl Rom {
    /// Appends the bytes that stand for the memory in a saved state.
    pub fn save(&self, out: &mut Vec<u8>)
        ensures
            final(out)@ == old(out)@ + blob_bytes(self@),
    {
        put_blob(out, &self.bs);
    }

    /// Builds the memory that `input` holds at `at`.
    pub fn load(input: &[u8], at: usize) -> (r: Result<(Rom, usize), LoadError>)
        requires
            at <= input@.len(),
        ensures
            match blob_at(input@, at as int) {
                Ok((bs, next)) => r is Ok && r->Ok_0.0@ == bs && r->Ok_0.1 == next && next
                    <= input@.len(),
                Err(e) => r == Err::<(Rom, usize), LoadError>(e),
            },
    {
        match get_blob(input, at) {
            Ok((bs, next)) => Ok((Rom { bs: bs }, next)),
            Err(e) => Err(e),
        }
    }
}

impl Device {
    /// Appends the bytes that stand for the device in a saved state.
    pub fn save(&self, out: &mut Vec<u8>)
        ensures
            final(out)@ == old(out)@ + device_bytes(self@),
        decreases *self,
    {
        match self {
            Device::Ram(m) => m.save(out),
            Device::Rom(m) => m.save(out),
            Device::Null(_) => {
                proof {
                    assert(out@ =~= old(out)@ + device_bytes(self@));
                }
            },
            Device::Palette(p) => p.save(out),
            Device::Mirrored(m) => m.save(out),
            Device::Mapper(t) => {
                proof {
                    assert(t@ =~= self@->Mapper_0);
                }
                t.save(out);
            },
        }
    }

    /// Builds the device that `input` holds at `at`, as this one is built.
    pub fn load(&self, input: &[u8], at: usize) -> (r: Result<(Device, usize), LoadError>)
        requires
            at <= input@.len(),
        ensures
            match device_decoded(self@, input@, at as int) {
                Ok((d, next)) => r is Ok && r->Ok_0.0@ == d && r->Ok_0.1 == next && at <= next
                    <= input@.len(),
                Err(e) => r == Err::<(Device, usize), LoadError>(e),
            },
        decreases *self,
    {
        match self {
            Device::Ram(_) => match Ram::load(input, at) {
                Ok((m, next)) => {
                    proof {
                        assert(blob_at(input@, at as int)->Ok_0.1 >= at);
                    }
                    Ok((Device::Ram(m), next))
                },
                Err(e) => Err(e),
            },
            Device::Rom(_) => match Rom::load(input, at) {
                Ok((m, next)) => Ok((Device::Rom(m), next)),
                Err(e) => Err(e),
            },
            Device::Null(_) => Ok((Device::Null(NullAddressSpace::new()), at)),
            Device::Palette(_) => match PaletteControl::load(input, at) {
                Ok((p, next)) => Ok((Device::Palette(p), next)),
                Err(e) => Err(e),
            },
            Device::Mirrored(m) => match m.load(input, at) {
                Ok((n, next)) => Ok((Device::Mirrored(Box::new(n)), next)),
                Err(e) => Err(e),
            },
            Device::Mapper(t) => {
                proof {
                    assert(t@ =~= self@->Mapper_0);
                }
                match t.load(input, at) {
                    Ok((n, next)) => {
                        let d = Device::Mapper(n);
                        proof {
                            assert(n@ =~= d@->Mapper_0);
                        }
                        Ok((d, next))
                    },
                    Err(e) => Err(e),
                }
            },
        }
    }
}

impl MirroredAddressSpace {
    /// Appends the bytes that stand for the mirror in a saved state.
    pub fn save(&self, out: &mut Vec<u8>)
        ensures
            final(out)@ == old(out)@ + mirrored_bytes(self@),
        decreases *self,
    {
        self.base.save(out);
        put_u16(out, self.begin);
        put_u16(out, self.end);
        put_u16(out, self.extended_begin);
        put_u16(out, self.extended_end);
        put_flag(out, self.keep_original);
        proof {
            assert(out@ =~= old(out)@ + mirrored_bytes(self@));
        }
    }

    /// Builds the mirror that `input` holds at `at`, as this one is built.
    pub fn load(&self, input: &[u8], at: usize) -> (r: Result<
        (MirroredAddressSpace, usize),
        LoadError,
    >)
        requires
            at <= input@.len(),
        ensures
            match mirrored_decoded(self@, input@, at as int) {
                Ok((m, next)) => r is Ok && r->Ok_0.0@ == m && r->Ok_0.1 == next && at <= next
                    <= input@.len(),
                Err(e) => r == Err::<(MirroredAddressSpace, usize), LoadError>(e),
            },
        decreases *self,
    {
        let (base, next) = match self.base.load(input, at) {
            Ok(pair) => pair,
            Err(e) => {
                return Err(e);
            },
        };
        if input.len() - next < 9 {
            return Err(LoadError::UnexpectedEnd);
        }
        Ok(
            (
                MirroredAddressSpace {
                    base: base,
                    begin: get_u16(input, next),
                    end: get_u16(input, next + 2),
                    extended_begin: get_u16(input, next + 4),
                    extended_end: get_u16(input, next + 6),
                    keep_original: get_flag(input, next + 8),
                },
                next + 9,
            ),
        )
    }
}

impl Mapper {
    /// Appends the bytes that stand for the table in a saved state.
    pub fn save(&self, out: &mut Vec<u8>)
        ensures
            final(out)@ == old(out)@ + mapper_bytes(self@),
        decreases *self,
    {
        put_u64(out, self.mappings.len() as u64);
        let ghost mid = out@;
        let n = self.mappings.len();
        let mut k: usize = 0;
        while k < n
            invariant
                k <= n,
                n == self.mappings.len(),
                self@.len() == n,
                out@ + entries_bytes(self@, k as int) == mid + entries_bytes(self@, 0),
            decreases n - k,
        {
            let ghost before = out@;
            let entry = &self.mappings[k];
            put_u16(out, entry.begin);
            put_u16(out, entry.end);
            entry.space.save(out);
            put_flag(out, entry.keep_original);
            proof {
                let e = self@[k as int];
                assert(e == entry@);
                assert(out@ + entries_bytes(self@, k + 1) =~= before + entries_bytes(
                    self@,
                    k as int,
                ));
            }
            k = k + 1;
        }
        proof {
            assert(out@ + entries_bytes(self@, n as int) =~= out@);
            assert(out@ =~= old(out)@ + mapper_bytes(self@));
        }
    }

    /// Builds the table that `input` holds at `at`, as this one is built.
    pub fn load(&self, input: &[u8], at: usize) -> (r: Result<(Mapper, usize), LoadError>)
        requires
            at <= input@.len(),
        ensures
            match mapper_decoded(self@, input@, at as int) {
                Ok((es, next)) => r is Ok && r->Ok_0.0@ == es && r->Ok_0.1 == next && at <= next
                    <= input@.len(),
                Err(e) => r == Err::<(Mapper, usize), LoadError>(e),
            },
        decreases *self,
    {
        if input.len() - at < 8 {
            return Err(LoadError::UnexpectedEnd);
        }
        let n = self.mappings.len();
        if get_u64(input, at) != n as u64 {
            return Err(LoadError::Mismatch);
        }
        let mut mappings: Vec<Mapping> = Vec::new();
        let mut pos: usize = at + 8;
        let mut k: usize = 0;
        let ghost shape = self@;
        let ghost built: Seq<MappingView> = Seq::empty();
        while k < n
            invariant
                k <= n,
                n == self.mappings.len(),
                shape == self@,
                shape.len() == n,
                at + 8 <= pos <= input@.len(),
                mappings@.len() == k,
                mapper_decoded(shape, input@, at as int) == entries_decoded(
                    shape,
                    input@,
                    at + 8,
                    0,
                ),
                entries_decoded(shape, input@, at + 8, 0) == (match entries_decoded(
                    shape,
                    input@,
                    pos as int,
                    k as int,
                ) {
                    Ok((rest, end)) => Ok::<(Seq<MappingView>, int), LoadError>(
                        (Seq::new(k as nat, |j: int| mappings@[j]@) + rest, end),
                    ),
                    Err(e) => Err::<(Seq<MappingView>, int), LoadError>(e),
                }),
            decreases n - k,
        {
            if input.len() - pos < 4 {
                return Err(LoadError::UnexpectedEnd);
            }
            let entry = &self.mappings[k];
            proof {
                assert(shape[k as int] == entry@);
            }
            let begin = get_u16(input, pos);
            let end = get_u16(input, pos + 2);
            let (space, next) = match entry.space.load(input, pos + 4) {
                Ok(pair) => pair,
                Err(e) => {
                    return Err(e);
                },
            };
            if input.len() - next < 1 {
                return Err(LoadError::UnexpectedEnd);
            }
            let keep_original = get_flag(input, next);
            let ghost prefix = Seq::new(k as nat, |j: int| mappings@[j]@);
            let mapping = Mapping { begin, end, space, keep_original };
            let ghost added = mapping@;
            mappings.push(mapping);
            proof {
                let longer = Seq::new((k + 1) as nat, |j: int| mappings@[j]@);
                assert(longer =~= prefix.push(added));
                match entries_decoded(shape, input@, next + 1, k + 1) {
                    Ok((rest, end)) => {
                        assert(prefix + (seq![added] + rest) =~= longer + rest);
                    },
                    Err(_) => {},
                }
            }
            pos = next + 1;
            k = k + 1;
        }
        let table = Mapper { mappings: mappings };
        proof {
            let all = Seq::new(n as nat, |j: int| mappings@[j]@);
            assert(all + Seq::<MappingView>::empty() =~= all);
            assert(table@ =~= all);
        }
        Ok((table, pos))
    }
}


/// Whether `d` is built as `shape` is: the same kind of device, around
/// inner devices built alike, with as many entries in every table.
pub open spec fn same_build(shape: DeviceView, d: DeviceView) -> bool
    decreases shape, 0nat,
{
    match shape {
        DeviceView::Ram(_) => d is Ram,
        DeviceView::Rom(_) => d is Rom,
        DeviceView::Null => d is Null,
        DeviceView::Palette(_) => d is Palette,
        DeviceView::Mirrored(m) => d is Mirrored && same_build(m.base, d->Mirrored_0.base),
        DeviceView::Mapper(es) => d is Mapper && tables_alike(es, d->Mapper_0),
    }
}

/// Whether two tables have as many entries, with devices built alike.
pub open spec fn tables_alike(shape: Seq<MappingView>, es: Seq<MappingView>) -> bool
    decreases shape, 1nat,
{
    shape.len() == es.len() && forall|i: int|
        0 <= i < shape.len() ==> same_build((#[trigger] shape[i]).space, es[i].space)
}

/// Whether every length in `d` can be held by this machine.
pub open spec fn fits(d: DeviceView) -> bool
    decreases d, 0nat,
{
    match d {
        DeviceView::Ram(bs) => bs.len() <= usize::MAX,
        DeviceView::Rom(bs) => bs.len() <= usize::MAX,
        DeviceView::Null => true,
        DeviceView::Palette(bs) => bs.len() <= usize::MAX,
        DeviceView::Mirrored(m) => fits(m.base),
        DeviceView::Mapper(es) => table_fits(es),
    }
}

/// Whether every length in the table can be held by this machine.
pub open spec fn table_fits(es: Seq<MappingView>) -> bool
    decreases es, 1nat,
{
    es.len() <= usize::MAX && forall|i: int| 0 <= i < es.len() ==> fits((#[trigger] es[i]).space)
}

/// A device is read back from where its bytes stand, by a device built alike.
#[verifier::rlimit(60)]
pub proof fn lemma_device_round_trip(shape: DeviceView, d: DeviceView, pre: Seq<u8>, post: Seq<u8>)
    requires
        same_build(shape, d),
        fits(d),
    ensures
        device_decoded(shape, pre + device_bytes(d) + post, pre.len() as int) == Ok::<
            (DeviceView, int),
            LoadError,
        >((d, pre.len() as int + device_bytes(d).len())),
    decreases shape, 0nat,
{
    match shape {
        DeviceView::Ram(_) => {
            lemma_blob_at(pre, d->Ram_0, post);
        },
        DeviceView::Rom(_) => {
            lemma_blob_at(pre, d->Rom_0, post);
        },
        DeviceView::Null => {
            assert(device_bytes(d) =~= Seq::<u8>::empty());
        },
        DeviceView::Palette(_) => {
            lemma_blob_at(pre, d->Palette_0, post);
        },
        DeviceView::Mirrored(m) => {
            lemma_mirrored_round_trip(*m, *d->Mirrored_0, pre, post);
        },
        DeviceView::Mapper(es) => {
            lemma_mapper_round_trip(es, d->Mapper_0, pre, post);
        },
    }
}

/// A mirror is read back from where its bytes stand.
#[verifier::rlimit(60)]
pub proof fn lemma_mirrored_round_trip(
    shape: MirroredView,
    m: MirroredView,
    pre: Seq<u8>,
    post: Seq<u8>,
)
    requires
        same_build(shape.base, m.base),
        fits(m.base),
    ensures
        mirrored_decoded(shape, pre + mirrored_bytes(m) + post, pre.len() as int) == Ok::<
            (MirroredView, int),
            LoadError,
        >((m, pre.len() as int + mirrored_bytes(m).len())),
    decreases shape, 0nat,
{
    let whole = pre + mirrored_bytes(m) + post;
    let base = device_bytes(m.base);
    let b = le_bytes(m.begin as u64, 2);
    let e = le_bytes(m.end as u64, 2);
    let xb = le_bytes(m.extended_begin as u64, 2);
    let xe = le_bytes(m.extended_end as u64, 2);
    let k = flag_bytes(m.keep_original);
    let p1 = pre + base;
    let p2 = p1 + b;
    let p3 = p2 + e;
    let p4 = p3 + xb;
    let p5 = p4 + xe;
    lemma_device_round_trip(shape.base, m.base, pre, b + e + xb + xe + k + post);
    assert(whole =~= pre + base + (b + e + xb + xe + k + post));
    lemma_number_at(p1, m.begin as u64, 2, e + xb + xe + k + post);
    assert(whole =~= p1 + b + (e + xb + xe + k + post));
    lemma_number_at(p2, m.end as u64, 2, xb + xe + k + post);
    assert(whole =~= p2 + e + (xb + xe + k + post));
    lemma_number_at(p3, m.extended_begin as u64, 2, xe + k + post);
    assert(whole =~= p3 + xb + (xe + k + post));
    lemma_number_at(p4, m.extended_end as u64, 2, k + post);
    assert(whole =~= p4 + xe + (k + post));
    assert(whole =~= p5 + k + post);
    assert(whole[p5.len() as int] == k[0]);
    assert(mirrored_bytes(m).len() == base.len() + 9);
}

/// A table is read back from where its bytes stand, by a table built alike.
#[verifier::rlimit(60)]
pub proof fn lemma_mapper_round_trip(
    shape: Seq<MappingView>,
    es: Seq<MappingView>,
    pre: Seq<u8>,
    post: Seq<u8>,
)
    requires
        tables_alike(shape, es),
        table_fits(es),
    ensures
        mapper_decoded(shape, pre + mapper_bytes(es) + post, pre.len() as int) == Ok::<
            (Seq<MappingView>, int),
            LoadError,
        >((es, pre.len() as int + mapper_bytes(es).len())),
    decreases shape, shape.len() + 1,
{
    let whole = pre + mapper_bytes(es) + post;
    let count = le_bytes(es.len() as u64, 8);
    let entries = entries_bytes(es, 0);
    lemma_number_at(pre, es.len() as u64, 8, entries + post);
    assert(whole =~= pre + count + (entries + post));
    lemma_entries_round_trip(shape, es, 0, pre + count, post);
    assert(whole =~= (pre + count) + entries + post);
    assert(es.subrange(0, es.len() as int) =~= es);
}

/// The bytes that stand for one entry of a table.
pub open spec fn entry_bytes(e: MappingView) -> Seq<u8> {
    le_bytes(e.begin as u64, 2) + le_bytes(e.end as u64, 2) + device_bytes(e.space) + flag_bytes(
        e.keep_original,
    )
}

/// The parts of an entry are read back from where its bytes stand.
#[verifier::rlimit(60)]
pub proof fn lemma_entry_round_trip(
    shape: DeviceView,
    entry: MappingView,
    pre: Seq<u8>,
    post: Seq<u8>,
)
    requires
        same_build(shape, entry.space),
        fits(entry.space),
    ensures
        ({
            let whole = pre + entry_bytes(entry) + post;
            let o = pre.len() as int;
            let next = o + 4 + device_bytes(entry.space).len();
            &&& u16_at(whole, o) == entry.begin
            &&& u16_at(whole, o + 2) == entry.end
            &&& device_decoded(shape, whole, o + 4) == Ok::<(DeviceView, int), LoadError>(
                (entry.space, next),
            )
            &&& flag_at(whole, next) == entry.keep_original
            &&& entry_bytes(entry).len() == 4 + device_bytes(entry.space).len() + 1
            &&& whole.len() == pre.len() + entry_bytes(entry).len() + post.len()
        }),
    decreases shape, 1nat,
{
    let whole = pre + entry_bytes(entry) + post;
    let b = le_bytes(entry.begin as u64, 2);
    let e = le_bytes(entry.end as u64, 2);
    let d = device_bytes(entry.space);
    let k = flag_bytes(entry.keep_original);
    let p1 = pre + b;
    let p2 = p1 + e;
    let p3 = p2 + d;
    lemma_number_at(pre, entry.begin as u64, 2, e + d + k + post);
    assert(whole =~= pre + b + (e + d + k + post));
    lemma_number_at(p1, entry.end as u64, 2, d + k + post);
    assert(whole =~= p1 + e + (d + k + post));
    lemma_device_round_trip(shape, entry.space, p2, k + post);
    assert(whole =~= p2 + d + (k + post));
    assert(whole =~= p3 + k + post);
    assert(whole[p3.len() as int] == k[0]);
}

/// The entries from `from` on are read back from where their bytes stand.
#[verifier::rlimit(60)]
pub proof fn lemma_entries_round_trip(
    shape: Seq<MappingView>,
    es: Seq<MappingView>,
    from: int,
    pre: Seq<u8>,
    post: Seq<u8>,
)
    requires
        tables_alike(shape, es),
        table_fits(es),
        0 <= from <= es.len(),
    ensures
        entries_decoded(shape, pre + entries_bytes(es, from) + post, pre.len() as int, from) == Ok::<
            (Seq<MappingView>, int),
            LoadError,
        >((es.subrange(from, es.len() as int), pre.len() as int + entries_bytes(es, from).len())),
    decreases shape, shape.len() - from,
{
    let whole = pre + entries_bytes(es, from) + post;
    if from >= es.len() {
        assert(entries_bytes(es, from) =~= Seq::<u8>::empty());
        assert(es.subrange(from, es.len() as int) =~= Seq::<MappingView>::empty());
    } else {
        let entry = es[from];
        let one = entry_bytes(entry);
        let rest = entries_bytes(es, from + 1);
        assert(entries_bytes(es, from) =~= one + rest);
        assert(whole =~= pre + one + (rest + post));
        assert(whole =~= (pre + one) + rest + post);
        lemma_entry_round_trip(shape[from].space, entry, pre, rest + post);
        lemma_entries_round_trip(shape, es, from + 1, pre + one, post);
        let o = pre.len() as int;
        let next = o + 4 + device_bytes(entry.space).len();
        assert((pre + one).len() == next + 1);
        let tail = es.subrange(from + 1, es.len() as int);
        assert(entries_decoded(shape, whole, next + 1, from + 1) == Ok::<
            (Seq<MappingView>, int),
            LoadError,
        >((tail, next + 1 + rest.len())));
        assert(seq![entry] + tail =~= es.subrange(from, es.len() as int));
        assert(entry == (MappingView {
            begin: entry.begin,
            end: entry.end,
            space: entry.space,
            keep_original: entry.keep_original,
        }));
    }
}

} // verus!
