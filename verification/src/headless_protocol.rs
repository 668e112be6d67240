//! The control protocol of the headless emulator: the commands, their
//! bytes on the wire, and the client side of the exchange.

use crate::serialization::{le_bytes, le_value, lemma_le_roundtrip, lemma_pow256_bound, push_le, read_le};
use vstd::prelude::*;

verus! {

/// How a frame is sent back: one palette entry per pixel, or red, green
/// and blue for each.
#[derive(Debug, Clone, Copy, PartialEq, Eq, Structural)]
pub enum RenderStyle {
    Plain,
    Rgb,
}

/// A command of the control protocol. File names are carried as bytes.
#[derive(Debug, Clone)]
pub enum Command {
    LoadRom(bool, Vec<u8>),
    StepFrame,
    RenderFrame(RenderStyle),
    SetInputs(u8, u8),
    SaveState(Vec<u8>),
    LoadState(Vec<u8>),
    GetInfo,
    Step,
    SaveTas,
    Peek(u16),
    Poke(u16, u8),
    SetRendering(bool),
}

/// The mathematical value of a [`Command`].
pub enum CommandView {
    LoadRom(bool, Seq<u8>),
    StepFrame,
    RenderFrame(RenderStyle),
    SetInputs(u8, u8),
    SaveState(Seq<u8>),
    LoadState(Seq<u8>),
    GetInfo,
    Step,
    SaveTas,
    Peek(u16),
    Poke(u16, u8),
    SetRendering(bool),
}

impl View for Command {
    type V = CommandView;

    open spec fn view(&self) -> CommandView {
        match self {
            Command::LoadRom(record, name) => CommandView::LoadRom(*record, name@),
            Command::StepFrame => CommandView::StepFrame,
            Command::RenderFrame(style) => CommandView::RenderFrame(*style),
            Command::SetInputs(id, mask) => CommandView::SetInputs(*id, *mask),
            Command::SaveState(name) => CommandView::SaveState(name@),
            Command::LoadState(name) => CommandView::LoadState(name@),
            Command::GetInfo => CommandView::GetInfo,
            Command::Step => CommandView::Step,
            Command::SaveTas => CommandView::SaveTas,
            Command::Peek(address) => CommandView::Peek(*address),
            Command::Poke(address, value) => CommandView::Poke(*address, *value),
            Command::SetRendering(on) => CommandView::SetRendering(*on),
        }
    }
}

/// Why bytes are not taken for a command.
#[derive(Debug, Clone, Copy, PartialEq, Eq, Structural)]
pub enum ProtocolError {
    /// The bytes end before the command does.
    Incomplete,
    /// The opcode is 0 or above 12, or a render style is neither 0 nor 1:
    /// the two sides have lost step.
    Desync,
}

/// The opcode of a command.
pub open spec fn opcode_of(c: CommandView) -> u8 {
    match c {
        CommandView::LoadRom(_, _) => 1,
        CommandView::StepFrame => 2,
        CommandView::RenderFrame(_) => 3,
        CommandView::SetInputs(_, _) => 4,
        CommandView::SaveState(_) => 5,
        CommandView::LoadState(_) => 6,
        CommandView::GetInfo => 7,
        CommandView::Step => 8,
        CommandView::SaveTas => 9,
        CommandView::Peek(_) => 10,
        CommandView::Poke(_, _) => 11,
        CommandView::SetRendering(_) => 12,
    }
}

/// The byte that stands for a flag.
pub open spec fn flag_byte(b: bool) -> u8 {
    if b {
        1
    } else {
        0
    }
}

/// The byte that stands for a render style.
pub open spec fn style_byte(style: RenderStyle) -> u8 {
    match style {
        RenderStyle::Plain => 0,
        RenderStyle::Rgb => 1,
    }
}

/// A file name on the wire: its length in 32 bits, low byte first, then
/// its bytes.
pub open spec fn framed(name: Seq<u8>) -> Seq<u8> {
    le_bytes(name.len() as u64, 4) + name
}

/// The operands of a command on the wire.
pub open spec fn operands_of(c: CommandView) -> Seq<u8> {
    match c {
        CommandView::LoadRom(record, name) => seq![flag_byte(record)] + framed(name),
        CommandView::RenderFrame(style) => seq![style_byte(style)],
        CommandView::SetInputs(id, mask) => seq![id, mask],
        CommandView::SaveState(name) => framed(name),
        CommandView::LoadState(name) => framed(name),
        CommandView::Peek(address) => le_bytes(address as u64, 2),
        CommandView::Poke(address, value) => le_bytes(address as u64, 2) + seq![value],
        CommandView::SetRendering(on) => seq![flag_byte(on)],
        _ => Seq::empty(),
    }
}

/// A command on the wire: its opcode, then its operands.
pub open spec fn encoded(c: CommandView) -> Seq<u8> {
    seq![opcode_of(c)] + operands_of(c)
}

/// Whether the file name of a command, if it has one, fits its 32-bit length.
pub open spec fn encodable(c: CommandView) -> bool {
    match c {
        CommandView::LoadRom(_, name) => name.len() <= 0xFFFF_FFFF,
        CommandView::SaveState(name) => name.len() <= 0xFFFF_FFFF,
        CommandView::LoadState(name) => name.len() <= 0xFFFF_FFFF,
        _ => true,
    }
}

/// The file name that `bytes` start with, and the bytes it takes.
pub open spec fn unframed(bytes: Seq<u8>) -> Result<(Seq<u8>, nat), ProtocolError> {
    if bytes.len() < 4 {
        Err(ProtocolError::Incomplete)
    } else {
        let len = le_value(bytes.subrange(0, 4));
        if bytes.len() < 4 + len {
            Err(ProtocolError::Incomplete)
        } else {
            Ok((bytes.subrange(4, 4 + len as int), 4 + len))
        }
    }
}

/// The command that `bytes` start with, and the bytes it takes.
pub open spec fn decoded(bytes: Seq<u8>) -> Result<(CommandView, nat), ProtocolError> {
    if bytes.len() < 1 {
        Err(ProtocolError::Incomplete)
    } else if bytes[0] == 0 || bytes[0] > 12 {
        Err(ProtocolError::Desync)
    } else if bytes[0] == 1 {
        if bytes.len() < 2 {
            Err(ProtocolError::Incomplete)
        } else {
            match unframed(bytes.skip(2)) {
                Ok((name, n)) => Ok((CommandView::LoadRom(bytes[1] > 0, name), 2 + n)),
                Err(e) => Err(e),
            }
        }
    } else if bytes[0] == 2 {
        Ok((CommandView::StepFrame, 1))
    } else if bytes[0] == 3 {
        if bytes.len() < 2 {
            Err(ProtocolError::Incomplete)
        } else if bytes[1] == 0 {
            Ok((CommandView::RenderFrame(RenderStyle::Plain), 2))
        } else if bytes[1] == 1 {
            Ok((CommandView::RenderFrame(RenderStyle::Rgb), 2))
        } else {
            Err(ProtocolError::Desync)
        }
    } else if bytes[0] == 4 {
        if bytes.len() < 3 {
            Err(ProtocolError::Incomplete)
        } else {
            Ok((CommandView::SetInputs(bytes[1], bytes[2]), 3))
        }
    } else if bytes[0] == 5 {
        match unframed(bytes.skip(1)) {
            Ok((name, n)) => Ok((CommandView::SaveState(name), 1 + n)),
            Err(e) => Err(e),
        }
    } else if bytes[0] == 6 {
        match unframed(bytes.skip(1)) {
            Ok((name, n)) => Ok((CommandView::LoadState(name), 1 + n)),
            Err(e) => Err(e),
        }
    } else if bytes[0] == 7 {
        Ok((CommandView::GetInfo, 1))
    } else if bytes[0] == 8 {
        Ok((CommandView::Step, 1))
    } else if bytes[0] == 9 {
        Ok((CommandView::SaveTas, 1))
    } else if bytes[0] == 10 {
        if bytes.len() < 3 {
            Err(ProtocolError::Incomplete)
        } else {
            Ok((CommandView::Peek(le_value(bytes.subrange(1, 3)) as u16), 3))
        }
    } else if bytes[0] == 11 {
        if bytes.len() < 4 {
            Err(ProtocolError::Incomplete)
        } else {
            Ok((CommandView::Poke(le_value(bytes.subrange(1, 3)) as u16, bytes[3]), 4))
        }
    } else {
        if bytes.len() < 2 {
            Err(ProtocolError::Incomplete)
        } else {
            Ok((CommandView::SetRendering(bytes[1] > 0), 2))
        }
    }
}

/// The number of bytes with which the server answers a command, before
/// the byte that keeps both sides in step.
pub open spec fn response_length(c: CommandView) -> nat {
    match c {
        CommandView::RenderFrame(RenderStyle::Plain) => 61440,
        CommandView::RenderFrame(RenderStyle::Rgb) => 184320,
        CommandView::Peek(_) => 1,
        _ => 0,
    }
}

/// Appends a file name as it goes on the wire.
pub fn push_framed(out: &mut Vec<u8>, name: &Vec<u8>)
    requires
        name@.len() <= 0xFFFF_FFFF,
    ensures
        final(out)@ == old(out)@ + framed(name@),
{
    push_le(out, name.len() as u64, 4);
    let ghost mid = out@;
    let mut i: usize = 0;
    while i < name.len()
        invariant
            i <= name.len(),
            out@ == mid + name@.subrange(0, i as int),
        decreases name.len() - i,
    {
        out.push(name[i]);
        proof {
            assert(out@ =~= mid + name@.subrange(0, i + 1));
        }
        i = i + 1;
    }
    proof {
        assert(name@.subrange(0, name.len() as int) =~= name@);
        assert(out@ =~= old(out)@ + framed(name@));
    }
}

/// Appends a command as it goes on the wire.
pub fn encode_command(command: &Command, out: &mut Vec<u8>)
    requires
        encodable(command@),
    ensures
        final(out)@ == old(out)@ + encoded(command@),
{
    let ghost start = out@;
    match command {
        Command::LoadRom(record, name) => {
            out.push(1);
            out.push(if *record { 1 } else { 0 });
            push_framed(out, name);
        },
        Command::StepFrame => {
            out.push(2);
        },
        Command::RenderFrame(style) => {
            out.push(3);
            out.push(
                match style {
                    RenderStyle::Plain => 0,
                    RenderStyle::Rgb => 1,
                },
            );
        },
        Command::SetInputs(id, mask) => {
            out.push(4);
            out.push(*id);
            out.push(*mask);
        },
        Command::SaveState(name) => {
            out.push(5);
            push_framed(out, name);
        },
        Command::LoadState(name) => {
            out.push(6);
            push_framed(out, name);
        },
        Command::GetInfo => {
            out.push(7);
        },
        Command::Step => {
            out.push(8);
        },
        Command::SaveTas => {
            out.push(9);
        },
        Command::Peek(address) => {
            out.push(10);
            push_le(out, *address as u64, 2);
        },
        Command::Poke(address, value) => {
            out.push(11);
            push_le(out, *address as u64, 2);
            out.push(*value);
        },
        Command::SetRendering(on) => {
            out.push(12);
            out.push(if *on { 1 } else { 0 });
        },
    }
    proof {
        assert(out@ =~= start + encoded(command@));
    }
}

/// Reads the file name that `bytes` hold at `at`; returns it with the
/// position behind it.
pub fn read_framed(bytes: &[u8], at: usize) -> (r: Result<(Vec<u8>, usize), ProtocolError>)
    requires
        at <= bytes@.len(),
    ensures
        match unframed(bytes@.skip(at as int)) {
            Ok((name, n)) => r is Ok && r->Ok_0.0@ == name && r->Ok_0.1 == at + n && at + n
                <= bytes@.len(),
            Err(e) => r == Err::<(Vec<u8>, usize), ProtocolError>(e),
        },
{
    let total = bytes.len();
    proof {
        if at + 4 <= bytes@.len() {
            assert(bytes@.skip(at as int).subrange(0, 4) =~= bytes@.subrange(at as int, at + 4));
            crate::serialization::lemma_le_bound(bytes@.subrange(at as int, at + 4));
            lemma_pow256_bound(4);
        }
    }
    let len = match read_le(bytes, at, 4) {
        Ok(len) => len,
        Err(_) => {
            return Err(ProtocolError::Incomplete);
        },
    };
    if ((total - at - 4) as u64) < len {
        return Err(ProtocolError::Incomplete);
    }
    let len = len as usize;
    let mut name: Vec<u8> = Vec::new();
    let mut i: usize = 0;
    while i < len
        invariant
            i <= len,
            at + 4 + len <= bytes@.len() <= usize::MAX,
            name@ == bytes@.subrange(at + 4, at + 4 + i),
        decreases len - i,
    {
        name.push(bytes[at + 4 + i]);
        proof {
            assert(name@ =~= bytes@.subrange(at + 4, at + 4 + i + 1));
        }
        i = i + 1;
    }
    proof {
        assert(bytes@.skip(at as int).subrange(4, 4 + len) =~= bytes@.subrange(
            at + 4,
            at + 4 + len,
        ));
    }
    Ok((name, at + 4 + len))
}

/// Reads the address that `bytes` hold at position 1.
fn read_address(bytes: &[u8]) -> (r: u16)
    requires
        bytes@.len() >= 3,
    ensures
        r == le_value(bytes@.subrange(1, 3)) as u16,
{
    proof {
        crate::serialization::lemma_le_bound(bytes@.subrange(1, 3));
        lemma_pow256_bound(2);
    }
    match read_le(bytes, 1, 2) {
        Ok(v) => v as u16,
        Err(_) => 0,
    }
}

/// Reads the command that `bytes` start with; returns it with the number
/// of bytes it takes.
pub fn decode_command(bytes: &[u8]) -> (r: Result<(Command, usize), ProtocolError>)
    ensures
        match decoded(bytes@) {
            Ok((c, n)) => r is Ok && r->Ok_0.0@ == c && r->Ok_0.1 == n && n <= bytes@.len(),
            Err(e) => r == Err::<(Command, usize), ProtocolError>(e),
        },
{
    if bytes.len() < 1 {
        return Err(ProtocolError::Incomplete);
    }
    let opcode = bytes[0];
    if opcode == 0 || opcode > 12 {
        return Err(ProtocolError::Desync);
    }
    if opcode == 1 {
        if bytes.len() < 2 {
            return Err(ProtocolError::Incomplete);
        }
        match read_framed(bytes, 2) {
            Ok((name, next)) => Ok((Command::LoadRom(bytes[1] > 0, name), next)),
            Err(e) => Err(e),
        }
    } else if opcode == 2 {
        Ok((Command::StepFrame, 1))
    } else if opcode == 3 {
        if bytes.len() < 2 {
            Err(ProtocolError::Incomplete)
        } else if bytes[1] == 0 {
            Ok((Command::RenderFrame(RenderStyle::Plain), 2))
        } else if bytes[1] == 1 {
            Ok((Command::RenderFrame(RenderStyle::Rgb), 2))
        } else {
            Err(ProtocolError::Desync)
        }
    } else if opcode == 4 {
        if bytes.len() < 3 {
            Err(ProtocolError::Incomplete)
        } else {
            Ok((Command::SetInputs(bytes[1], bytes[2]), 3))
        }
    } else if opcode == 5 {
        match read_framed(bytes, 1) {
            Ok((name, next)) => Ok((Command::SaveState(name), next)),
            Err(e) => Err(e),
        }
    } else if opcode == 6 {
        match read_framed(bytes, 1) {
            Ok((name, next)) => Ok((Command::LoadState(name), next)),
            Err(e) => Err(e),
        }
    } else if opcode == 7 {
        Ok((Command::GetInfo, 1))
    } else if opcode == 8 {
        Ok((Command::Step, 1))
    } else if opcode == 9 {
        Ok((Command::SaveTas, 1))
    } else if opcode == 10 {
        if bytes.len() < 3 {
            Err(ProtocolError::Incomplete)
        } else {
            Ok((Command::Peek(read_address(bytes)), 3))
        }
    } else if opcode == 11 {
        if bytes.len() < 4 {
            Err(ProtocolError::Incomplete)
        } else {
            Ok((Command::Poke(read_address(bytes), bytes[3]), 4))
        }
    } else {
        if bytes.len() < 2 {
            Err(ProtocolError::Incomplete)
        } else {
            Ok((Command::SetRendering(bytes[1] > 0), 2))
        }
    }
}


/// A command that can be encoded is read back as it was, from the bytes
/// it was encoded to and whatever follows them.
pub proof fn lemma_decode_encode(c: CommandView, rest: Seq<u8>)
    requires
        encodable(c),
    ensures
        decoded(encoded(c) + rest) == Ok::<(CommandView, nat), ProtocolError>(
            (c, encoded(c).len()),
        ),
{
    let bytes = encoded(c) + rest;
    assert(bytes[0] == opcode_of(c));
    match c {
        CommandView::LoadRom(record, name) => {
            lemma_unframe(name, rest);
            assert(bytes.skip(2) =~= framed(name) + rest);
            assert(bytes[1] == flag_byte(record));
            assert(encoded(c).len() == 2 + framed(name).len());
        },
        CommandView::SaveState(name) => {
            lemma_unframe(name, rest);
            assert(bytes.skip(1) =~= framed(name) + rest);
            assert(encoded(c).len() == 1 + framed(name).len());
        },
        CommandView::LoadState(name) => {
            lemma_unframe(name, rest);
            assert(bytes.skip(1) =~= framed(name) + rest);
            assert(encoded(c).len() == 1 + framed(name).len());
        },
        CommandView::Peek(address) => {
            lemma_le_roundtrip(address as u64, 2);
            lemma_pow256_bound(2);
            assert(bytes.subrange(1, 3) =~= le_bytes(address as u64, 2));
        },
        CommandView::Poke(address, value) => {
            lemma_le_roundtrip(address as u64, 2);
            lemma_pow256_bound(2);
            assert(bytes.subrange(1, 3) =~= le_bytes(address as u64, 2));
            assert(bytes[3] == value);
        },
        CommandView::RenderFrame(style) => {
            assert(bytes[1] == style_byte(style));
        },
        CommandView::SetInputs(id, mask) => {
            assert(bytes[1] == id);
            assert(bytes[2] == mask);
        },
        CommandView::SetRendering(on) => {
            assert(bytes[1] == flag_byte(on));
        },
        _ => {},
    }
}

/// A file name that fits its length field is read back as it was.
pub proof fn lemma_unframe(name: Seq<u8>, rest: Seq<u8>)
    requires
        name.len() <= 0xFFFF_FFFF,
    ensures
        unframed(framed(name) + rest) == Ok::<(Seq<u8>, nat), ProtocolError>(
            (name, framed(name).len()),
        ),
        framed(name).len() == 4 + name.len(),
{
    let bytes = framed(name) + rest;
    let prefix = le_bytes(name.len() as u64, 4);
    lemma_le_roundtrip(name.len() as u64, 4);
    lemma_pow256_bound(4);
    assert(prefix.len() == 4);
    assert(framed(name).len() == 4 + name.len());
    assert(bytes.subrange(0, 4) =~= prefix);
    assert(le_value(prefix) == name.len()) by {
        assert((name.len() as u64) as nat % 0x1_0000_0000 == name.len());
    }
    assert(bytes.subrange(4, 4 + name.len() as int) =~= name);
}

/// The client side of the protocol. It owns no connection: each command
/// is appended to `outbox`, which the owner of the connection sends, and
/// each method returns the number of bytes to read back before the next
/// command, the byte that keeps both sides in step included.
pub struct SocketHeadlessClient {
    pub outbox: Vec<u8>,
}

impl View for SocketHeadlessClient {
    type V = Seq<u8>;

    open spec fn view(&self) -> Seq<u8> {
        self.outbox@
    }
}

impl SocketHeadlessClient {
    /// A client that has nothing to send.
    pub fn new() -> (r: SocketHeadlessClient)
        ensures
            r@ == Seq::<u8>::empty(),
    {
        SocketHeadlessClient { outbox: Vec::new() }
    }

    /// Queues `command`; returns the number of bytes that answer it.
    pub fn send(&mut self, command: &Command) -> (awaited: usize)
        requires
            encodable(command@),
        ensures
            final(self)@ == old(self)@ + encoded(command@),
            awaited == response_length(command@) + 1,
    {
        encode_command(command, &mut self.outbox);
        match command {
            Command::RenderFrame(RenderStyle::Plain) => 61441,
            Command::RenderFrame(RenderStyle::Rgb) => 184321,
            Command::Peek(_) => 2,
            _ => 1,
        }
    }

    /// Hands out the bytes to send and starts over with none.
    pub fn take_outbox(&mut self) -> (r: Vec<u8>)
        ensures
            r@ == old(self)@,
            final(self)@ == Seq::<u8>::empty(),
    {
        let mut out: Vec<u8> = Vec::new();
        std::mem::swap(&mut out, &mut self.outbox);
        out
    }

    /// Queues a command to load a cartridge.
    pub fn load_rom(&mut self, save_tas: bool, filename: Vec<u8>) -> (awaited: usize)
        requires
            filename@.len() <= 0xFFFF_FFFF,
        ensures
            final(self)@ == old(self)@ + encoded(CommandView::LoadRom(save_tas, filename@)),
            awaited == 1,
    {
        self.send(&Command::LoadRom(save_tas, filename))
    }

    /// Queues a command to run one frame.
    pub fn step_frame(&mut self) -> (awaited: usize)
        ensures
            final(self)@ == old(self)@ + encoded(CommandView::StepFrame),
            awaited == 1,
    {
        self.send(&Command::StepFrame)
    }

    /// Queues a command to send the frame back.
    pub fn render_frame(&mut self, render_style: RenderStyle) -> (awaited: usize)
        ensures
            final(self)@ == old(self)@ + encoded(CommandView::RenderFrame(render_style)),
            awaited == response_length(CommandView::RenderFrame(render_style)) + 1,
    {
        self.send(&Command::RenderFrame(render_style))
    }

    /// Queues a command to set the buttons of a controller.
    pub fn set_inputs(&mut self, controller_id: u8, inputs: u8) -> (awaited: usize)
        ensures
            final(self)@ == old(self)@ + encoded(CommandView::SetInputs(controller_id, inputs)),
            awaited == 1,
    {
        self.send(&Command::SetInputs(controller_id, inputs))
    }

    /// Queues a command to save the state.
    pub fn save_state(&mut self, filename: Vec<u8>) -> (awaited: usize)
        requires
            filename@.len() <= 0xFFFF_FFFF,
        ensures
            final(self)@ == old(self)@ + encoded(CommandView::SaveState(filename@)),
            awaited == 1,
    {
        self.send(&Command::SaveState(filename))
    }

    /// Queues a command to load a state.
    pub fn load_state(&mut self, filename: Vec<u8>) -> (awaited: usize)
        requires
            filename@.len() <= 0xFFFF_FFFF,
        ensures
            final(self)@ == old(self)@ + encoded(CommandView::LoadState(filename@)),
            awaited == 1,
    {
        self.send(&Command::LoadState(filename))
    }

    /// Queues the reserved command 7.
    pub fn get_info(&mut self) -> (awaited: usize)
        ensures
            final(self)@ == old(self)@ + encoded(CommandView::GetInfo),
            awaited == 1,
    {
        self.send(&Command::GetInfo)
    }

    /// Queues a command to run one tick.
    pub fn step(&mut self) -> (awaited: usize)
        ensures
            final(self)@ == old(self)@ + encoded(CommandView::Step),
            awaited == 1,
    {
        self.send(&Command::Step)
    }

    /// Queues the reserved command 9.
    pub fn save_tas(&mut self) -> (awaited: usize)
        ensures
            final(self)@ == old(self)@ + encoded(CommandView::SaveTas),
            awaited == 1,
    {
        self.send(&Command::SaveTas)
    }

    /// Queues a read of `address`; the first of the two bytes that answer
    /// is the byte read.
    pub fn peek(&mut self, address: u16) -> (awaited: usize)
        ensures
            final(self)@ == old(self)@ + encoded(CommandView::Peek(address)),
            awaited == 2,
    {
        self.send(&Command::Peek(address))
    }

    /// Queues a write of `value` to `address`.
    pub fn poke(&mut self, address: u16, value: u8) -> (awaited: usize)
        ensures
            final(self)@ == old(self)@ + encoded(CommandView::Poke(address, value)),
            awaited == 1,
    {
        self.send(&Command::Poke(address, value))
    }

    /// Queues a command to run frames with or without picture.
    pub fn set_rendering(&mut self, is_rendering: bool) -> (awaited: usize)
        ensures
            final(self)@ == old(self)@ + encoded(CommandView::SetRendering(is_rendering)),
            awaited == 1,
    {
        self.send(&Command::SetRendering(is_rendering))
    }
}

/// The byte that keeps both sides in step after `num_commands` commands:
/// their number modulo 256.
pub open spec fn sync_byte(num_commands: u64) -> u8 {
    (num_commands % 256) as u8
}

} // verus!
