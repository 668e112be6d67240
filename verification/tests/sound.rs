use nes_emulator::apu::{
    map_apu_port, Apu, ApuPort, Dmc, Envelope, FrameCounter, LengthCounter, LinearCounter, Mix,
    Noise, Pulse, Sweep, Triangle,
};
use nes_emulator::mapper::AddressSpace;

#[test]
fn ports_are_where_the_register_map_puts_them() {
    assert_eq!(map_apu_port(0x4000), Some(ApuPort::SQ1_VOL));
    assert_eq!(map_apu_port(0x4007), Some(ApuPort::SQ2_HI));
    assert_eq!(map_apu_port(0x4008), Some(ApuPort::TRI_LINEAR));
    assert_eq!(map_apu_port(0x4009), None);
    assert_eq!(map_apu_port(0x400d), None);
    assert_eq!(map_apu_port(0x4013), Some(ApuPort::DMC_LEN));
    assert_eq!(map_apu_port(0x4014), None);
    assert_eq!(map_apu_port(0x4015), Some(ApuPort::SND_CHN));
    assert_eq!(map_apu_port(0x4017), Some(ApuPort::FRAME_COUNTER));
}

#[test]
fn frame_counter_steps_and_edges() {
    let mut f = FrameCounter::new();
    for _ in 0..3728 {
        f.clock();
    }
    assert!(f.is_quarter_frame_edge());
    assert!(!f.is_half_frame_edge());
    for _ in 3728..7456 {
        f.clock();
    }
    assert!(f.is_quarter_frame_edge() && f.is_half_frame_edge());
    for _ in 7456..14914 {
        f.clock();
    }
    assert!(f.is_quarter_frame_edge() && f.is_half_frame_edge() && f.is_frame_edge());
    f.clock();
    assert_eq!(f.step, 0);
    f.write_control(0xc0);
    assert!(f.mode && f.interrupt_inhibit);
    f.step = 14914;
    assert!(!f.is_half_frame_edge() && !f.is_frame_edge());
    f.step = 18640;
    assert!(f.is_half_frame_edge() && f.is_quarter_frame_edge());
    f.clock();
    assert_eq!(f.step, 0);
}

#[test]
fn length_counter_loads_and_counts() {
    let mut l = LengthCounter::new();
    assert!(l.is_enabled() && l.is_silenced());
    l.set_load(1);
    assert_eq!(l.counter, 254);
    l.set_load(0x1f);
    assert_eq!(l.counter, 30);
    l.set_load(0x20);
    assert_eq!(l.counter, 10);
    l.clock();
    assert_eq!(l.counter, 9);
    l.set_halt(true);
    l.clock();
    assert_eq!(l.counter, 9);
    l.set_enabled(false);
    assert_eq!(l.counter, 0);
    assert!(l.is_silenced());
    l.set_load(3);
    assert_eq!(l.counter, 0);
    l.set_halt(false);
    l.clock();
    assert_eq!(l.counter, 0);
}

#[test]
fn linear_counter_reloads_and_counts() {
    let mut l = LinearCounter::new();
    l.set_reload_value(3);
    l.set_reload_flag(true);
    l.clock();
    assert_eq!(l.counter, 3);
    assert!(l.reload);
    l.set_enabled(true);
    l.clock();
    assert_eq!(l.counter, 3);
    assert!(!l.reload);
    l.clock();
    l.clock();
    l.clock();
    assert!(l.is_silenced());
    l.clock();
    assert_eq!(l.counter, 0);
}

#[test]
fn envelope_decays_and_loops() {
    let mut e = Envelope::new();
    e.set_control(0b10_0010);
    assert_eq!((e.period, e.volume, e.constant, e.looping), (2, 2, false, true));
    e.reset();
    e.clock();
    assert_eq!((e.volume, e.divider, e.start), (15, 2, false));
    e.clock();
    e.clock();
    assert_eq!((e.volume, e.divider), (15, 0));
    e.clock();
    assert_eq!((e.volume, e.divider), (14, 2));
    assert_eq!(e.sample(), 14);
    e.volume = 0;
    e.divider = 0;
    e.clock();
    assert_eq!(e.volume, 15);
    e.set_control(0b01_0111);
    assert_eq!(e.sample(), 7);
    e.volume = 0;
    e.divider = 0;
    e.clock();
    assert_eq!(e.volume, 0);
}

#[test]
fn sweep_targets_and_mutes() {
    let mut s = Sweep::new(false);
    s.set_period(0x100);
    s.timer = 0x100;
    s.write_control(0b1000_0001);
    assert_eq!((s.shift_count, s.negate, s.divider_period, s.enabled), (1, false, 0, true));
    assert_eq!(s.target_period(), 0x180);
    assert!(!s.is_muted());
    s.clock();
    assert_eq!(s.period(), 0x180);
    s.write_control(0b1001_1001);
    assert_eq!((s.negate, s.divider_period), (true, 1));
    assert_eq!(s.negate(0x80), 0xff7f);
    assert_eq!(s.target_period(), 0x00ff);
    let two = Sweep::new(true);
    assert_eq!(two.negate(0x80), 0xff80);
    assert_eq!(two.negate(0), 0);
    s.set_period(7);
    assert!(s.is_muted());
    s.write_control(0b1000_0001);
    s.set_period(0x7ff);
    assert!(s.is_muted());
    s.divider = 3;
    s.reload = false;
    s.clock();
    assert_eq!(s.divider, 2);
    assert_eq!(s.period(), 0x7ff);
    s.reload = true;
    s.clock();
    assert_eq!(s.divider, 0);
    assert!(!s.reload);
}

#[test]
fn pulse_registers_and_level() {
    let mut p = Pulse::new(false);
    p.set_volume(0b1011_1010);
    assert_eq!(p.duty_cycle, 2);
    assert!(p.length_counter.halt);
    assert!(p.envelope.constant);
    assert_eq!(p.envelope.period, 10);
    p.set_timer_low(0x34);
    p.set_timer_high(0b0000_1010);
    assert_eq!(p.timer_period, 0x234);
    assert_eq!(p.sweep.period(), 0x234);
    assert_eq!(p.length_counter.counter, 254);
    assert_eq!(p.sequencer_step, 0);
    assert!(p.envelope.start);
    // Duty 2 is 0111_1000: step 0 is low, step 1 is high.
    assert_eq!(p.sample(), 0);
    p.clock();
    assert_eq!(p.sequencer_step, 7);
    assert_eq!(p.timer, 0x234);
    assert_eq!(p.sample(), 0);
    p.sequencer_step = 1;
    assert_eq!(p.sample(), 10);
    p.clock();
    assert_eq!(p.timer, 0x233);
    p.set_enabled(false);
    assert_eq!(p.sample(), 0);
    assert!(!p.is_enabled());
    p.set_sweep(0x80);
    assert!(p.sweep.enabled);
    p.clock_quarter_frame();
    assert!(!p.envelope.start);
    p.sweep.set_period(0x111);
    p.clock_half_frame();
    assert_eq!(p.timer_period, 0x111);
}

#[test]
fn triangle_steps_through_its_levels() {
    let mut t = Triangle::new();
    assert_eq!(t.sample(), 15);
    t.write_timer_low(0x01);
    t.write_timer_high(0x08);
    assert_eq!(t.timer_period, 1);
    assert_eq!(t.length_counter.counter, 254);
    t.write_linear_counter(0x85);
    assert!(t.length_counter.halt);
    t.clock_quarter_frame();
    assert_eq!(t.linear_counter.counter, 5);
    assert!(!t.is_silenced());
    t.clock();
    assert_eq!(t.sequencer_step, 1);
    assert_eq!(t.sample(), 14);
    t.clock();
    assert_eq!(t.sequencer_step, 1);
    t.sequencer_step = 15;
    assert_eq!(t.sample(), 0);
    t.sequencer_step = 16;
    assert_eq!(t.sample(), 0);
    t.sequencer_step = 31;
    assert_eq!(t.sample(), 15);
    t.timer = 0;
    t.clock();
    assert_eq!(t.sequencer_step, 0);
    t.set_enabled(false);
    assert!(t.is_silenced());
    assert!(!t.is_enabled());
    t.timer = 0;
    t.clock();
    assert_eq!(t.sequencer_step, 0);
    t.write_enabled(true);
    assert!(t.is_enabled());
    t.clock_half_frame();
}

#[test]
fn noise_shifts_with_feedback() {
    let mut n = Noise::new();
    assert_eq!(n.feedback, 1);
    assert_eq!(n.next_feedback(1), 0x4000);
    assert_eq!(n.next_feedback(2), 0x4001);
    assert_eq!(n.next_feedback(3), 0x0001);
    n.set_period(0x8f);
    assert!(n.mode);
    assert_eq!(n.period, 4068);
    assert_eq!(n.next_feedback(0x40), 0x4020);
    assert_eq!(n.next_feedback(0x02), 0x0001);
    n.set_period(0x03);
    assert!(!n.mode);
    assert_eq!(n.period, 32);
    n.set_period(0x0b);
    assert!(!n.mode);
    n.set_period(0x83);
    assert!(n.mode);
    assert_eq!(n.period, 32);
    n.set_period(0x03);
    n.clock();
    assert_eq!(n.feedback, 0x4000);
    assert_eq!(n.timer, 32);
    n.clock();
    assert_eq!(n.timer, 31);
    n.set_volume(0b01_1001);
    n.set_length(0x08);
    assert_eq!(n.length_counter.counter, 254);
    assert_eq!(n.sample(), 0);
    n.feedback = 1;
    assert_eq!(n.sample(), 9);
    n.set_enabled(false);
    assert_eq!(n.sample(), 0);
    assert!(!n.is_enabled());
    assert!(n.envelope.start);
    n.clock_quarter_frame();
    assert!(!n.envelope.start);
    assert_eq!(n.envelope.volume, 15);
    assert_eq!(n.envelope.divider, 9);
    n.clock_half_frame();
}

#[test]
fn the_sampled_channel_is_silent() {
    let mut d = Dmc::new();
    assert!(!d.is_enabled());
    d.set_enabled(true);
    d.clock();
    d.clock_half_frame();
    d.clock_quarter_frame();
    assert_eq!(d.sample(), 0);
    assert!(d.is_enabled());
    d.set_enabled(false);
    assert!(!d.is_enabled());
}

#[test]
fn a_sample_is_taken_every_29780_735ths_of_a_cycle() {
    let mut apu = Apu::new();
    apu.clock();
    assert_eq!(apu.samples.len(), 1);
    for _ in 1..40 {
        apu.clock();
    }
    assert_eq!(apu.samples.len(), 1);
    for _ in 40..42 {
        apu.clock();
    }
    assert_eq!(apu.samples.len(), 2);
    for _ in 42..29780 {
        apu.clock();
    }
    assert_eq!(apu.samples.len(), 735);
    apu.clock();
    assert_eq!(apu.samples.len(), 736);
    assert_eq!(
        apu.samples[0],
        Mix { pulse1: 0, pulse2: 0, triangle: 15, noise: 0, dmc: 0 }
    );
    let taken = apu.take_samples();
    assert_eq!(taken.len(), 736);
    assert_eq!(apu.samples.len(), 0);
    apu.set_recording(false);
    for _ in 0..100 {
        apu.clock();
    }
    assert_eq!(apu.samples.len(), 0);
    apu.reset();
    assert_eq!(apu.core.cycle, 29881);
}

#[test]
fn status_register_enables_channels() {
    let mut apu = Apu::new();
    assert_eq!(apu.peek(0x4015), Ok(0x0f));
    assert_eq!(apu.poke(0x4015, 0x05), Ok(()));
    assert_eq!(apu.peek(0x4015), Ok(0x05));
    assert_eq!(apu.read_status(), 0x05);
    assert_eq!(apu.peek(0x4000), Ok(0));
    apu.write_status(0x0a);
    assert!(!apu.core.pulse1.is_enabled());
    assert!(apu.core.pulse2.is_enabled());
    assert!(!apu.core.triangle.is_enabled());
    assert!(apu.core.noise.is_enabled());
    assert!(!apu.core.dmc.is_enabled());
    apu.write_status(0x10);
    assert!(apu.core.dmc.is_enabled());
    assert_eq!(apu.read_status(), 0x10);
    assert_eq!(apu.poke(0x4015, 0x1f), Ok(()));
    assert_eq!(apu.peek(0x4015), Ok(0x1f));
}

#[test]
fn register_writes_reach_their_channels() {
    let mut apu = Apu::new();
    apu.poke(0x4000, 0x7f).unwrap();
    apu.poke(0x4002, 0xfe).unwrap();
    apu.poke(0x4003, 0x01).unwrap();
    assert_eq!(apu.core.pulse1.timer_period, 0x1fe);
    assert_eq!(apu.core.pulse1.duty_cycle, 1);
    apu.poke(0x4005, 0x88).unwrap();
    assert!(apu.core.pulse2.sweep.negate);
    apu.poke(0x4008, 0x7f).unwrap();
    assert_eq!(apu.core.triangle.linear_counter.reload_value, 0x7f);
    apu.poke(0x400a, 0x55).unwrap();
    apu.poke(0x400b, 0x07).unwrap();
    assert_eq!(apu.core.triangle.timer_period, 0x755);
    apu.poke(0x400c, 0x3f).unwrap();
    apu.poke(0x400e, 0x01).unwrap();
    apu.poke(0x400f, 0x00).unwrap();
    assert_eq!(apu.core.noise.period, 8);
    assert_eq!(apu.core.noise.length_counter.counter, 10);
    apu.poke(0x4010, 0xff).unwrap();
    apu.poke(0x4017, 0x80).unwrap();
    assert!(apu.core.frame_counter.mode);
    apu.poke(0x4009, 0xff).unwrap();
    let mix = apu.sample();
    assert_eq!(mix.triangle, 15);
    assert_eq!(mix.dmc, 0);
}

#[test]
fn frame_events_clock_the_units() {
    let mut apu = Apu::new();
    apu.set_recording(false);
    apu.poke(0x4000, 0x00).unwrap();
    apu.poke(0x4003, 0x08).unwrap();
    assert_eq!(apu.core.pulse1.length_counter.counter, 254);
    assert!(apu.core.pulse1.envelope.start);
    for _ in 0..3728 {
        apu.clock();
    }
    assert_eq!(apu.core.frame_counter.step, 3728);
    assert!(!apu.core.pulse1.envelope.start);
    assert_eq!(apu.core.pulse1.envelope.volume, 15);
    assert_eq!(apu.core.pulse1.length_counter.counter, 254);
    for _ in 3728..7456 {
        apu.clock();
    }
    assert_eq!(apu.core.pulse1.length_counter.counter, 253);
    assert_eq!(apu.core.pulse1.envelope.volume, 14);
}
