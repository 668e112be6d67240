use nes_emulator::headless::{append, Headless, Outcome};
use nes_emulator::headless_protocol::{
    decode_command, encode_command, push_framed, read_framed, Command, ProtocolError, RenderStyle,
    SocketHeadlessClient,
};
use nes_emulator::nes::RomError;
use nes_emulator::serialization::LoadError;

fn encoded(command: &Command) -> Vec<u8> {
    let mut out = Vec::new();
    encode_command(command, &mut out);
    out
}

fn same(a: &Command, b: &Command) -> bool {
    format!("{:?}", a) == format!("{:?}", b)
}

#[test]
fn commands_go_on_the_wire_as_the_table_says() {
    assert_eq!(
        encoded(&Command::LoadRom(true, b"a.nes".to_vec())),
        vec![1, 1, 5, 0, 0, 0, b'a', b'.', b'n', b'e', b's']
    );
    assert_eq!(encoded(&Command::StepFrame), vec![2]);
    assert_eq!(encoded(&Command::RenderFrame(RenderStyle::Plain)), vec![3, 0]);
    assert_eq!(encoded(&Command::RenderFrame(RenderStyle::Rgb)), vec![3, 1]);
    assert_eq!(encoded(&Command::SetInputs(0, 0x81)), vec![4, 0, 0x81]);
    assert_eq!(encoded(&Command::SaveState(b"s".to_vec())), vec![5, 1, 0, 0, 0, b's']);
    assert_eq!(encoded(&Command::LoadState(vec![])), vec![6, 0, 0, 0, 0]);
    assert_eq!(encoded(&Command::GetInfo), vec![7]);
    assert_eq!(encoded(&Command::Step), vec![8]);
    assert_eq!(encoded(&Command::SaveTas), vec![9]);
    assert_eq!(encoded(&Command::Peek(0x1234)), vec![10, 0x34, 0x12]);
    assert_eq!(encoded(&Command::Poke(0xfffe, 7)), vec![11, 0xfe, 0xff, 7]);
    assert_eq!(encoded(&Command::SetRendering(false)), vec![12, 0]);
}

#[test]
fn commands_are_read_back_as_they_were_written() {
    let commands = vec![
        Command::LoadRom(false, b"roms/mario.nes".to_vec()),
        Command::StepFrame,
        Command::RenderFrame(RenderStyle::Plain),
        Command::RenderFrame(RenderStyle::Rgb),
        Command::SetInputs(1, 0xff),
        Command::SaveState(b"save.state".to_vec()),
        Command::LoadState(b"".to_vec()),
        Command::GetInfo,
        Command::Step,
        Command::SaveTas,
        Command::Peek(0xc000),
        Command::Poke(0x0001, 0xaa),
        Command::SetRendering(true),
    ];
    let mut stream = Vec::new();
    for command in &commands {
        encode_command(command, &mut stream);
    }
    stream.push(0xff);
    let mut at = 0;
    for command in &commands {
        let (decoded, taken) = decode_command(&stream[at..]).unwrap();
        assert!(same(&decoded, command));
        assert_eq!(taken, encoded(command).len());
        at += taken;
    }
    assert_eq!(at, stream.len() - 1);
}

#[test]
fn lost_step_and_short_input_are_told_apart() {
    assert_eq!(decode_command(&[]).err(), Some(ProtocolError::Incomplete));
    assert_eq!(decode_command(&[0]).err(), Some(ProtocolError::Desync));
    assert_eq!(decode_command(&[13]).err(), Some(ProtocolError::Desync));
    assert_eq!(decode_command(&[255, 1, 2]).err(), Some(ProtocolError::Desync));
    assert_eq!(decode_command(&[3, 2]).err(), Some(ProtocolError::Desync));
    assert_eq!(decode_command(&[3]).err(), Some(ProtocolError::Incomplete));
    assert_eq!(decode_command(&[1]).err(), Some(ProtocolError::Incomplete));
    assert_eq!(decode_command(&[1, 0, 2, 0, 0, 0, b'x']).err(), Some(ProtocolError::Incomplete));
    assert_eq!(decode_command(&[4, 1]).err(), Some(ProtocolError::Incomplete));
    assert_eq!(decode_command(&[5, 1, 0, 0]).err(), Some(ProtocolError::Incomplete));
    assert_eq!(decode_command(&[10, 1]).err(), Some(ProtocolError::Incomplete));
    assert_eq!(decode_command(&[11, 1, 2]).err(), Some(ProtocolError::Incomplete));
    assert_eq!(decode_command(&[12]).err(), Some(ProtocolError::Incomplete));
    let (c, n) = decode_command(&[12, 9, 0]).unwrap();
    assert!(same(&c, &Command::SetRendering(true)));
    assert_eq!(n, 2);
    let (c, _) = decode_command(&[1, 2, 0, 0, 0, 0]).unwrap();
    assert!(same(&c, &Command::LoadRom(true, vec![])));
}

#[test]
fn file_names_are_framed_by_their_length() {
    let mut out = vec![9];
    push_framed(&mut out, &vec![1, 2, 3]);
    assert_eq!(out, vec![9, 3, 0, 0, 0, 1, 2, 3]);
    assert_eq!(read_framed(&out, 1), Ok((vec![1, 2, 3], 8)));
    assert_eq!(read_framed(&out, 2), Err(ProtocolError::Incomplete));
    assert_eq!(read_framed(&out, 6), Err(ProtocolError::Incomplete));
    let mut long = vec![0x2c, 0x01, 0, 0];
    long.extend_from_slice(&[7; 300]);
    assert_eq!(read_framed(&long, 0), Ok((vec![7; 300], 304)));
}

#[test]
fn the_client_queues_commands_and_says_what_to_wait_for() {
    let mut client = SocketHeadlessClient::new();
    assert_eq!(client.load_rom(true, b"r".to_vec()), 1);
    assert_eq!(client.step_frame(), 1);
    assert_eq!(client.render_frame(RenderStyle::Plain), 256 * 240 + 1);
    assert_eq!(client.render_frame(RenderStyle::Rgb), 256 * 240 * 3 + 1);
    assert_eq!(client.set_inputs(0, 3), 1);
    assert_eq!(client.save_state(b"s".to_vec()), 1);
    assert_eq!(client.load_state(b"s".to_vec()), 1);
    assert_eq!(client.get_info(), 1);
    assert_eq!(client.step(), 1);
    assert_eq!(client.save_tas(), 1);
    assert_eq!(client.peek(0x0010), 2);
    assert_eq!(client.poke(0x0010, 1), 1);
    assert_eq!(client.set_rendering(false), 1);
    assert_eq!(client.send(&Command::Step), 1);
    let sent = client.take_outbox();
    assert_eq!(
        sent,
        vec![
            1, 1, 1, 0, 0, 0, b'r', 2, 3, 0, 3, 1, 4, 0, 3, 5, 1, 0, 0, 0, b's', 6, 1, 0, 0, 0,
            b's', 7, 8, 9, 10, 0x10, 0x00, 11, 0x10, 0x00, 1, 12, 0, 8
        ]
    );
    assert_eq!(client.outbox.len(), 0);
}

fn image(program: &[u8]) -> Vec<u8> {
    let mut bytes = vec![0x4e, 0x45, 0x53, 0x1a, 1, 1, 0, 0];
    bytes.extend_from_slice(&[0; 8]);
    let mut prg = vec![0xea; 16384];
    prg[..program.len()].copy_from_slice(program);
    prg[16384 - 4] = 0x00;
    prg[16384 - 3] = 0x80;
    bytes.extend_from_slice(&prg);
    bytes.extend_from_slice(&[0; 8192]);
    bytes
}

#[test]
fn the_server_answers_and_counts() {
    let mut server = Headless::new();
    let mut out = Vec::new();
    assert_eq!(
        server.dispatch_command(Command::LoadRom(false, b"game.nes".to_vec()), &mut out),
        Outcome::ReadRom(b"game.nes".to_vec())
    );
    assert_eq!(out, vec![1]);
    assert_eq!(server.insert_rom(&image(&[0xa9, 0x42, 0x85, 0x10])), Ok(()));
    assert!(server.nes.is_some());
    assert!(!server.nes.as_ref().unwrap().cpu.mapper.apu.core.is_recording);

    assert_eq!(server.dispatch_command(Command::Poke(0x0020, 0x99), &mut out), Outcome::Done);
    assert_eq!(server.dispatch_command(Command::Peek(0x0020), &mut out), Outcome::Done);
    assert_eq!(out, vec![1, 2, 0x99, 3]);
    out.clear();

    for _ in 0..9 {
        assert_eq!(server.dispatch_command(Command::Step, &mut out), Outcome::Done);
    }
    assert_eq!(server.nes.as_ref().unwrap().cpu.state.acc, 0x42);
    assert_eq!(server.dispatch_command(Command::Peek(0x0010), &mut out), Outcome::Done);
    assert_eq!(&out[9..], &[0x42, 13]);
    out.clear();

    assert_eq!(server.dispatch_command(Command::SetInputs(0, 0x0f), &mut out), Outcome::Done);
    assert_eq!(server.nes.as_ref().unwrap().cpu.mapper.joystick1.buttons, 0x0f);
    assert_eq!(server.dispatch_command(Command::StepFrame, &mut out), Outcome::Done);
    assert_eq!(server.nes.as_ref().unwrap().cpu.state.counter, 9 + 29772);
    assert_eq!(server.nes.as_ref().unwrap().current_frame(), 1);
    assert_eq!(server.dispatch_command(Command::SetRendering(false), &mut out), Outcome::Done);
    assert!(!server.is_rendering);
    assert_eq!(server.dispatch_command(Command::StepFrame, &mut out), Outcome::Done);
    assert_eq!(server.nes.as_ref().unwrap().cpu.state.counter, 9 + 29772 + 29737);
    assert_eq!(out, vec![14, 15, 16, 17]);
    out.clear();

    assert_eq!(
        server.dispatch_command(Command::RenderFrame(RenderStyle::Plain), &mut out),
        Outcome::Done
    );
    assert_eq!(out.len(), 256 * 240 + 1);
    assert_eq!(out[256 * 240], 18);
    out.clear();
    assert_eq!(
        server.dispatch_command(Command::RenderFrame(RenderStyle::Rgb), &mut out),
        Outcome::Done
    );
    assert_eq!(out.len(), 256 * 240 * 3 + 1);
    assert_eq!(&out[0..3], &[124, 124, 124]);
    out.clear();

    assert_eq!(
        server.dispatch_command(Command::SaveState(b"a".to_vec()), &mut out),
        Outcome::WriteState(b"a".to_vec())
    );
    assert_eq!(
        server.dispatch_command(Command::LoadState(b"b".to_vec()), &mut out),
        Outcome::ReadState(b"b".to_vec())
    );
    assert_eq!(server.dispatch_command(Command::GetInfo, &mut out), Outcome::Done);
    assert_eq!(server.dispatch_command(Command::SaveTas, &mut out), Outcome::Done);
    assert_eq!(out, vec![20, 21, 22, 23]);
    assert_eq!(server.num_commands, 23);
}

#[test]
fn the_sync_byte_wraps_and_can_be_switched_off() {
    let mut server = Headless::new();
    let mut out = Vec::new();
    server.num_commands = 254;
    server.emit_sync_byte(&mut out);
    server.emit_sync_byte(&mut out);
    server.emit_sync_byte(&mut out);
    assert_eq!(out, vec![255, 0, 1]);
    server.is_synchronized = false;
    server.emit_sync_byte(&mut out);
    assert_eq!(out, vec![255, 0, 1]);
    assert_eq!(server.num_commands, 258);
    let mut more = vec![1];
    append(&mut more, &vec![2, 3]);
    assert_eq!(more, vec![1, 2, 3]);
}

#[test]
fn without_a_cartridge_the_console_commands_do_nothing() {
    let mut server = Headless::new();
    let mut out = Vec::new();
    assert_eq!(server.dispatch_command(Command::Step, &mut out), Outcome::Done);
    assert_eq!(server.dispatch_command(Command::Peek(0), &mut out), Outcome::Done);
    assert_eq!(
        server.dispatch_command(Command::RenderFrame(RenderStyle::Plain), &mut out),
        Outcome::Done
    );
    assert_eq!(out, vec![1, 2, 3]);
    assert!(server.nes.is_none());
    assert!(server.save_state().is_none());
    assert_eq!(server.restore_state(&[1, 2, 3]), Ok(()));
}

#[test]
fn a_refused_cartridge_keeps_the_one_before() {
    let mut server = Headless::new();
    assert_eq!(server.insert_rom(&[1, 2, 3]), Err(RomError::InvalidRom));
    assert!(server.nes.is_none());
    assert_eq!(server.insert_rom(&image(&[0xe8])), Ok(()));
    let mut out = Vec::new();
    for _ in 0..7 {
        server.dispatch_command(Command::Step, &mut out);
    }
    assert_eq!(server.nes.as_ref().unwrap().cpu.state.x, 1);
    let mut other_mapper = image(&[]);
    other_mapper[6] = 0x10;
    assert_eq!(server.insert_rom(&other_mapper), Err(RomError::UnsupportedMapper));
    assert_eq!(server.nes.as_ref().unwrap().cpu.state.x, 1);
    let short = image(&[]);
    assert_eq!(server.insert_rom(&short[..100]), Err(RomError::Truncated));
    assert_eq!(server.nes.as_ref().unwrap().cpu.state.x, 1);
}

#[test]
fn the_server_saves_and_restores_states() {
    let mut server = Headless::new();
    assert_eq!(server.insert_rom(&image(&[0xe8, 0x4c, 0x00, 0x80])), Ok(()));
    let mut out = Vec::new();
    for _ in 0..50 {
        server.dispatch_command(Command::Step, &mut out);
    }
    let saved = server.save_state().unwrap();
    let x = server.nes.as_ref().unwrap().cpu.state.x;
    for _ in 0..50 {
        server.dispatch_command(Command::Step, &mut out);
    }
    assert_ne!(server.nes.as_ref().unwrap().cpu.state.x, x);
    assert_eq!(server.restore_state(&saved[..40]), Err(LoadError::UnexpectedEnd));
    assert_ne!(server.nes.as_ref().unwrap().cpu.state.x, x);
    assert_eq!(server.restore_state(&saved), Ok(()));
    assert_eq!(server.nes.as_ref().unwrap().cpu.state.x, x);
    assert_eq!(server.save_state().unwrap(), saved);
}

#[test]
fn a_halted_console_answers_every_peek_with_the_opcode_that_halted_it() {
    // LDA #$42; STA $10; KIL
    let mut server = Headless::new();
    let mut out = Vec::new();
    assert_eq!(server.insert_rom(&image(&[0xa9, 0x42, 0x85, 0x10, 0x12])), Ok(()));
    for _ in 0..5 {
        assert_eq!(server.dispatch_command(Command::Step, &mut out), Outcome::Done);
    }
    assert!(!server.nes.as_ref().unwrap().cpu.state.halted);
    assert_eq!(server.dispatch_command(Command::Peek(0x0010), &mut out), Outcome::Done);
    assert_eq!(&out[5..], &[0x42, 6]);
    assert_eq!(server.dispatch_command(Command::Step, &mut out), Outcome::Done);
    assert!(server.nes.as_ref().unwrap().cpu.state.halted);
    out.clear();
    assert_eq!(server.dispatch_command(Command::Peek(0x0010), &mut out), Outcome::Done);
    assert_eq!(server.dispatch_command(Command::Peek(0x8000), &mut out), Outcome::Done);
    assert_eq!(out, vec![0x12, 8, 0x12, 9]);
}
