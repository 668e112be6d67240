//! The server side of the control protocol: what each command does to the
//! console and what goes back to the client. Files are left to the caller.

use crate::c6502::{m_read, m_write, Machine};
use crate::headless_protocol::{sync_byte, Command, CommandView, RenderStyle};
use crate::joystick::Joystick;
use crate::nes::{
    console_at_reset, console_bus, frame_run, headless_from, ines_parsed, load_ines, nes_clocked,
    parse_ines, CpuBus, CpuBusView, InesView, Nes, RomError, CLOCKS_PER_FRAME,
};
use crate::nes::{state_bytes, state_decoded};
use crate::ppu::SYSTEM_PALETTE;
use crate::serialization::LoadError;
use vstd::prelude::*;

verus! {

/// The state of a server: the console, once a cartridge was loaded, and
/// the settings of the connection.
pub struct Headless {
    pub nes: Option<Nes>,
    /// Whether every command is answered with the byte that keeps both
    /// sides in step.
    pub is_synchronized: bool,
    pub num_commands: u64,
    /// Whether frames are run with the picture processor.
    pub is_rendering: bool,
}

/// The mathematical state of a [`Headless`].
pub struct HeadlessView {
    pub nes: Option<Machine<CpuBusView>>,
    pub is_synchronized: bool,
    pub num_commands: u64,
    pub is_rendering: bool,
}

impl View for Headless {
    type V = HeadlessView;

    open spec fn view(&self) -> HeadlessView {
        HeadlessView {
            nes: match self.nes {
                Some(nes) => Some(nes@),
                None => None,
            },
            is_synchronized: self.is_synchronized,
            num_commands: self.num_commands,
            is_rendering: self.is_rendering,
        }
    }
}

/// What is left for the caller to do after a command.
#[derive(Debug, Clone, PartialEq, Eq)]
pub enum Outcome {
    /// Nothing.
    Done,
    /// Read the cartridge image of this name and hand it to `insert_rom`.
    ReadRom(Vec<u8>),
    /// Write the saved state to the file of this name.
    WriteState(Vec<u8>),
    /// Read the file of this name and restore the state from it.
    ReadState(Vec<u8>),
}

/// The frame as it is sent for style `style`: the palette entries, or the
/// red, green and blue of each.
pub open spec fn frame_bytes(display: Seq<u8>, style: RenderStyle) -> Seq<u8> {
    match style {
        RenderStyle::Plain => display,
        RenderStyle::Rgb => Seq::new(
            3 * display.len(),
            |i: int|
                if i % 3 == 0 {
                    SYSTEM_PALETTE[(display[i / 3] % 64) as int].0
                } else if i % 3 == 1 {
                    SYSTEM_PALETTE[(display[i / 3] % 64) as int].1
                } else {
                    SYSTEM_PALETTE[(display[i / 3] % 64) as int].2
                },
        ),
    }
}

/// The console after command `c`. The commands that name a file leave
/// the console as it is: the caller carries them out.
pub open spec fn console_after(m: Machine<CpuBusView>, c: CommandView, is_rendering: bool) -> Machine<
    CpuBusView,
> {
    match c {
        CommandView::StepFrame => if is_rendering {
            frame_run(m, m.bus.ppu.state.frame, CLOCKS_PER_FRAME as nat)
        } else {
            headless_from(m, 0)
        },
        CommandView::SetInputs(id, mask) => if id == 0 {
            Machine {
                cpu: m.cpu,
                bus: CpuBusView { joystick1: Joystick { buttons: mask, ..m.bus.joystick1 }, ..m.bus },
            }
        } else if id == 1 {
            Machine {
                cpu: m.cpu,
                bus: CpuBusView { joystick2: Joystick { buttons: mask, ..m.bus.joystick2 }, ..m.bus },
            }
        } else {
            m
        },
        CommandView::Step => nes_clocked(m),
        CommandView::Peek(address) => if m.cpu.halted {
            m
        } else {
            m_read::<CpuBus>(m, address).1
        },
        CommandView::Poke(address, value) => m_write::<CpuBus>(m, address, value),
        _ => m,
    }
}

/// What command `c` sends back from console `m`, before the byte that
/// keeps both sides in step. Once the processor has halted, every peek
/// is answered with the opcode that halted it, and reads nothing.
pub open spec fn response_to(m: Machine<CpuBusView>, c: CommandView) -> Seq<u8> {
    match c {
        CommandView::RenderFrame(style) => frame_bytes(m.bus.ppu.display, style),
        CommandView::Peek(address) => if m.cpu.halted {
            seq![m.cpu.halt_code]
        } else {
            seq![m_read::<CpuBus>(m, address).0]
        },
        _ => Seq::empty(),
    }
}

/// The server after command `c`, without the count of commands.
pub open spec fn served(v: HeadlessView, c: CommandView) -> HeadlessView {
    HeadlessView {
        nes: match v.nes {
            Some(m) => Some(console_after(m, c, v.is_rendering)),
            None => None,
        },
        is_rendering: match c {
            CommandView::SetRendering(on) => on,
            _ => v.is_rendering,
        },
        ..v
    }
}

/// What the server sends back to command `c`: the response, if a
/// cartridge is loaded, then the byte that keeps both sides in step, if
/// the connection asks for it.
pub open spec fn reply(v: HeadlessView, c: CommandView) -> Seq<u8> {
    (match v.nes {
        Some(m) => response_to(m, c),
        None => Seq::empty(),
    }) + (if v.is_synchronized {
        seq![sync_byte(v.num_commands.wrapping_add(1))]
    } else {
        Seq::empty()
    })
}

impl Headless {
    /// A server without a cartridge, in step with its client, rendering.
    pub fn new() -> (r: Headless)
        ensures
            r@ == (HeadlessView {
                nes: None,
                is_synchronized: true,
                num_commands: 0,
                is_rendering: true,
            }),
    {
        Headless { nes: None, is_synchronized: true, num_commands: 0, is_rendering: true }
    }

    /// Builds a console around the cartridge image `bytes`. An image that
    /// is refused leaves the console that was there.
    pub fn insert_rom(&mut self, bytes: &[u8]) -> (r: Result<(), RomError>)
        ensures
            match ines_parsed(bytes@) {
                Err(e) => r == Err::<(), RomError>(e) && final(self)@ == old(self)@,
                Ok(rom) => if rom.mapper != 0 {
                    r == Err::<(), RomError>(RomError::UnsupportedMapper) && final(self)@ == old(
                        self,
                    )@
                } else if rom.num_prg_chunks != 1 && rom.num_prg_chunks != 2 {
                    r == Err::<(), RomError>(RomError::UnsupportedPrgSize) && final(self)@ == old(
                        self,
                    )@
                } else {
                    r == Ok::<(), RomError>(()) && final(self)@ == (HeadlessView {
                        nes: Some(recording_off(console_at_reset(console_bus(rom, Joystick {
                            buttons: 0,
                            buttons_register: 0,
                            strobe_active: false,
                        }, Joystick { buttons: 0, buttons_register: 0, strobe_active: false })))),
                        ..old(self)@
                    })
                },
            },
    {
        let rom = match parse_ines(bytes) {
            Ok(rom) => rom,
            Err(e) => {
                return Err(e);
            },
        };
        match load_ines(rom, Joystick::new(), Joystick::new()) {
            Ok(nes) => {
                let mut nes = nes;
                nes.set_recording(false);
                self.nes = Some(nes);
                Ok(())
            },
            Err(e) => Err(e),
        }
    }

    /// The bytes of a saved state of the console, if there is a console.
    pub fn save_state(&self) -> (r: Option<Vec<u8>>)
        ensures
            match self@.nes {
                Some(m) => r is Some && r->0@ == state_bytes(m),
                None => r is None,
            },
    {
        match &self.nes {
            Some(nes) => Some(nes.save_state()),
            None => None,
        }
    }

    /// Restores the console from a saved state. Without a console, and
    /// with a state that is refused, nothing changes.
    pub fn restore_state(&mut self, input: &[u8]) -> (r: Result<(), LoadError>)
        ensures
            match old(self)@.nes {
                None => r == Ok::<(), LoadError>(()) && final(self)@ == old(self)@,
                Some(m) => match state_decoded(m, input@) {
                    Ok(n) => r == Ok::<(), LoadError>(()) && final(self)@ == (HeadlessView {
                        nes: Some(n),
                        ..old(self)@
                    }),
                    Err(e) => r == Err::<(), LoadError>(e) && final(self)@ == old(self)@,
                },
            },
    {
        match &mut self.nes {
            Some(nes) => nes.load_state(input),
            None => Ok(()),
        }
    }

    /// Counts the command and appends the byte that keeps both sides in
    /// step, if the connection asks for it.
    pub fn emit_sync_byte(&mut self, out: &mut Vec<u8>)
        ensures
            final(self)@ == (HeadlessView {
                num_commands: old(self)@.num_commands.wrapping_add(1),
                ..old(self)@
            }),
            final(out)@ == old(out)@ + (if old(self)@.is_synchronized {
                seq![sync_byte(old(self)@.num_commands.wrapping_add(1))]
            } else {
                Seq::<u8>::empty()
            }),
    {
        self.num_commands = self.num_commands.wrapping_add(1);
        if self.is_synchronized {
            out.push((self.num_commands % 256) as u8);
            proof {
                assert(out@ =~= old(out)@ + seq![sync_byte(self.num_commands)]);
            }
        } else {
            proof {
                assert(out@ =~= old(out)@ + Seq::<u8>::empty());
            }
        }
    }
}

/// `m` with the taking of sound samples switched off.
pub open spec fn recording_off(m: Machine<CpuBusView>) -> Machine<CpuBusView> {
    Machine {
        cpu: m.cpu,
        bus: CpuBusView {
            apu: crate::apu::ApuView {
                core: crate::apu::ApuCore { is_recording: false, ..m.bus.apu.core },
                ..m.bus.apu
            },
            ..m.bus
        },
    }
}


/// Appends the bytes of `bytes` to `out`.
pub fn append(out: &mut Vec<u8>, bytes: &Vec<u8>)
    ensures
        final(out)@ == old(out)@ + bytes@,
{
    let mut i: usize = 0;
    while i < bytes.len()
        invariant
            i <= bytes.len(),
            out@ == old(out)@ + bytes@.subrange(0, i as int),
        decreases bytes.len() - i,
    {
        out.push(bytes[i]);
        proof {
            assert(out@ =~= old(out)@ + bytes@.subrange(0, i + 1));
        }
        i = i + 1;
    }
    proof {
        assert(bytes@.subrange(0, bytes.len() as int) =~= bytes@);
    }
}

/// Appends the frame of `nes` as it is sent for style `style`.
pub fn send_frame(nes: &Nes, style: RenderStyle, out: &mut Vec<u8>)
    ensures
        final(out)@ == old(out)@ + frame_bytes(nes@.bus.ppu.display, style),
{
    match style {
        RenderStyle::Plain => append(out, &nes.cpu.mapper.bridge.ppu.display),
        RenderStyle::Rgb => {
            let rgb = nes.cpu.mapper.bridge.ppu.render();
            proof {
                let display = nes@.bus.ppu.display;
                assert forall|i: int| 0 <= i < rgb@.len() implies rgb@[i] == frame_bytes(
                    display,
                    style,
                )[i] by {
                    let k = i / 3;
                    assert(0 <= k < display.len());
                    assert(i == 3 * k + i % 3);
                }
                assert(rgb@ =~= frame_bytes(display, style));
            }
            append(out, &rgb);
        },
    }
}

/// Carries out on `nes` what command `command` asks of the console, and
/// appends what it sends back.
pub fn serve(nes: &mut Nes, command: &Command, is_rendering: bool, out: &mut Vec<u8>)
    ensures
        final(nes)@ == console_after(old(nes)@, command@, is_rendering),
        final(out)@ == old(out)@ + response_to(old(nes)@, command@),
{
    proof {
        assert(old(out)@ + Seq::<u8>::empty() =~= old(out)@);
    }
    match command {
        Command::StepFrame => {
            if is_rendering {
                nes.run_frame();
            } else {
                nes.run_frame_headless();
            }
        },
        Command::RenderFrame(style) => {
            send_frame(nes, *style, out);
        },
        Command::SetInputs(id, mask) => {
            nes.set_buttons(*id, *mask);
        },
        Command::Step => {
            nes.clock();
        },
        Command::Peek(address) => {
            let v = if nes.cpu.state.halted {
                nes.cpu.state.halt_code
            } else {
                nes.cpu.peek(*address)
            };
            out.push(v);
            proof {
                assert(out@ =~= old(out)@ + seq![v]);
            }
        },
        Command::Poke(address, value) => {
            nes.cpu.poke(*address, *value);
        },
        _ => {},
    }
}

/// What is left for the caller to do after command `c`.
pub open spec fn left_to_caller(c: CommandView, r: Outcome) -> bool {
    match c {
        CommandView::LoadRom(_, name) => r matches Outcome::ReadRom(n) && n@ == name,
        CommandView::SaveState(name) => r matches Outcome::WriteState(n) && n@ == name,
        CommandView::LoadState(name) => r matches Outcome::ReadState(n) && n@ == name,
        _ => r is Done,
    }
}

impl Headless {
    fn serve_console(&mut self, command: &Command, out: &mut Vec<u8>)
        ensures
            final(self)@ == (HeadlessView {
                nes: match old(self)@.nes {
                    Some(m) => Some(console_after(m, command@, old(self)@.is_rendering)),
                    None => None,
                },
                ..old(self)@
            }),
            final(out)@ == old(out)@ + (match old(self)@.nes {
                Some(m) => response_to(m, command@),
                None => Seq::<u8>::empty(),
            }),
    {
        let is_rendering = self.is_rendering;
        match &mut self.nes {
            Some(nes) => {
                serve(nes, command, is_rendering, out);
            },
            None => {
                proof {
                    assert(old(out)@ + Seq::<u8>::empty() =~= old(out)@);
                }
            },
        }
    }

    /// Carries out a command: the console and the settings change as the
    /// command asks, the response and the byte that keeps both sides in
    /// step are appended to `out`, and the command is counted. Without a
    /// cartridge the commands for the console do nothing. The commands
    /// that name a file are handed back to the caller.
    pub fn dispatch_command(&mut self, command: Command, out: &mut Vec<u8>) -> (r: Outcome)
        ensures
            final(self)@ == (HeadlessView {
                num_commands: old(self)@.num_commands.wrapping_add(1),
                ..served(old(self)@, command@)
            }),
            final(out)@ == old(out)@ + reply(old(self)@, command@),
            left_to_caller(command@, r),
    {
        self.serve_console(&command, out);
        let ghost mid = out@;
        let outcome = match command {
            Command::LoadRom(_, name) => Outcome::ReadRom(name),
            Command::SaveState(name) => Outcome::WriteState(name),
            Command::LoadState(name) => Outcome::ReadState(name),
            Command::SetRendering(on) => {
                self.is_rendering = on;
                Outcome::Done
            },
            _ => Outcome::Done,
        };
        self.emit_sync_byte(out);
        proof {
            assert(out@ =~= old(out)@ + reply(old(self)@, command@));
        }
        outcome
    }
}

} // verus!
