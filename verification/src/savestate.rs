//! Saved states: the bytes that stand for each part of the console, and
//! the saving and loading of the whole console.

use crate::apu::{
    ApuCore, Dmc, Envelope, FrameCounter, LengthCounter, LinearCounter, Noise, Pulse, Sweep,
    Triangle,
};
use crate::c6502::CpuState;
use crate::joystick::Joystick;
use crate::ppu::{PpuRegisters, PpuState, SpriteSlot};
use crate::serialization::{
    flag_at, flag_bytes, get_flag, get_u16, get_u32, get_u64, get_u8, le_bytes, lemma_number_at,
    put_flag, put_u16, put_u32, put_u64, put_u8, u16_at, u32_at, u64_at, u8_at, LoadError,
    Savable,
};
use vstd::prelude::*;

verus! {

/// The number of bytes that stand for the length counter.
pub const LENGTH_COUNTER_SIZE: usize = 3;

/// The bytes that stand for the length counter, field by field.
pub open spec fn length_counter_bytes(v: LengthCounter) -> Seq<u8> {
    flag_bytes(v.enabled)
        + flag_bytes(v.halt)
        + seq![v.counter]
}

/// The state of the length counter that the bytes of `b` from offset `o` on stand for.
pub open spec fn length_counter_at(b: Seq<u8>, o: int) -> LengthCounter {
    LengthCounter {
        enabled: flag_at(b, o),
        halt: flag_at(b, o + 1),
        counter: u8_at(b, o + 2),
    }
}

/// Appends the bytes that stand for the length counter.
pub fn put_length_counter(out: &mut Vec<u8>, v: &LengthCounter)
    ensures
        final(out)@ == old(out)@ + length_counter_bytes(*v),
{
    put_flag(out, v.enabled);
    put_flag(out, v.halt);
    put_u8(out, v.counter);
    proof {
        assert(out@ =~= old(out)@ + length_counter_bytes(*v));
    }
}

/// Reads the state of the length counter that `input` holds at `at`.
pub fn get_length_counter(input: &[u8], at: usize) -> (r: LengthCounter)
    requires
        at + LENGTH_COUNTER_SIZE <= input@.len(),
    ensures
        r == length_counter_at(input@, at as int),
{
    let _ = input.len();
    LengthCounter {
        enabled: get_flag(input, at),
        halt: get_flag(input, at + 1),
        counter: get_u8(input, at + 2),
    }
}

/// The state of the length counter is read back from where its bytes stand.
pub proof fn lemma_length_counter_at(pre: Seq<u8>, v: LengthCounter, post: Seq<u8>)
    ensures
        length_counter_at(pre + length_counter_bytes(v) + post, pre.len() as int) == v,
        length_counter_bytes(v).len() == LENGTH_COUNTER_SIZE,
{
    let whole = pre + length_counter_bytes(v) + post;
    assert(whole =~= (pre) + flag_bytes(v.enabled) + (flag_bytes(v.halt) + seq![v.counter] + post));
    assert((pre).len() == pre.len() + 0);
    assert(whole =~= (pre + flag_bytes(v.enabled)) + flag_bytes(v.halt) + (seq![v.counter] + post));
    assert((pre + flag_bytes(v.enabled)).len() == pre.len() + 1);
    assert(whole =~= (pre + flag_bytes(v.enabled) + flag_bytes(v.halt)) + seq![v.counter] + (post));
    assert((pre + flag_bytes(v.enabled) + flag_bytes(v.halt)).len() == pre.len() + 2);
}

/// Reading behind the first `a` bytes is reading `a` bytes further on.
pub proof fn lemma_length_counter_shift(b: Seq<u8>, a: int, o: int)
    requires
        0 <= a,
        0 <= o,
        a + o + LENGTH_COUNTER_SIZE <= b.len(),
    ensures
        length_counter_at(b.skip(a), o) == length_counter_at(b, a + o),
{

}

/// The number of bytes that stand for the linear counter.
pub const LINEAR_COUNTER_SIZE: usize = 4;

/// The bytes that stand for the linear counter, field by field.
pub open spec fn linear_counter_bytes(v: LinearCounter) -> Seq<u8> {
    seq![v.counter]
        + seq![v.reload_value]
        + flag_bytes(v.reload)
        + flag_bytes(v.enabled)
}

/// The state of the linear counter that the bytes of `b` from offset `o` on stand for.
pub open spec fn linear_counter_at(b: Seq<u8>, o: int) -> LinearCounter {
    LinearCounter {
        counter: u8_at(b, o),
        reload_value: u8_at(b, o + 1),
        reload: flag_at(b, o + 2),
        enabled: flag_at(b, o + 3),
    }
}

/// Appends the bytes that stand for the linear counter.
pub fn put_linear_counter(out: &mut Vec<u8>, v: &LinearCounter)
    ensures
        final(out)@ == old(out)@ + linear_counter_bytes(*v),
{
    put_u8(out, v.counter);
    put_u8(out, v.reload_value);
    put_flag(out, v.reload);
    put_flag(out, v.enabled);
    proof {
        assert(out@ =~= old(out)@ + linear_counter_bytes(*v));
    }
}

/// Reads the state of the linear counter that `input` holds at `at`.
pub fn get_linear_counter(input: &[u8], at: usize) -> (r: LinearCounter)
    requires
        at + LINEAR_COUNTER_SIZE <= input@.len(),
    ensures
        r == linear_counter_at(input@, at as int),
{
    let _ = input.len();
    LinearCounter {
        counter: get_u8(input, at),
        reload_value: get_u8(input, at + 1),
        reload: get_flag(input, at + 2),
        enabled: get_flag(input, at + 3),
    }
}

/// The state of the linear counter is read back from where its bytes stand.
pub proof fn lemma_linear_counter_at(pre: Seq<u8>, v: LinearCounter, post: Seq<u8>)
    ensures
        linear_counter_at(pre + linear_counter_bytes(v) + post, pre.len() as int) == v,
        linear_counter_bytes(v).len() == LINEAR_COUNTER_SIZE,
{
    let whole = pre + linear_counter_bytes(v) + post;
    assert(whole =~= (pre) + seq![v.counter] + (seq![v.reload_value] + flag_bytes(v.reload) + flag_bytes(v.enabled) + post));
    assert((pre).len() == pre.len() + 0);
    assert(whole =~= (pre + seq![v.counter]) + seq![v.reload_value] + (flag_bytes(v.reload) + flag_bytes(v.enabled) + post));
    assert((pre + seq![v.counter]).len() == pre.len() + 1);
    assert(whole =~= (pre + seq![v.counter] + seq![v.reload_value]) + flag_bytes(v.reload) + (flag_bytes(v.enabled) + post));
    assert((pre + seq![v.counter] + seq![v.reload_value]).len() == pre.len() + 2);
    assert(whole =~= (pre + seq![v.counter] + seq![v.reload_value] + flag_bytes(v.reload)) + flag_bytes(v.enabled) + (post));
    assert((pre + seq![v.counter] + seq![v.reload_value] + flag_bytes(v.reload)).len() == pre.len() + 3);
}

/// Reading behind the first `a` bytes is reading `a` bytes further on.
pub proof fn lemma_linear_counter_shift(b: Seq<u8>, a: int, o: int)
    requires
        0 <= a,
        0 <= o,
        a + o + LINEAR_COUNTER_SIZE <= b.len(),
    ensures
        linear_counter_at(b.skip(a), o) == linear_counter_at(b, a + o),
{

}

/// The number of bytes that stand for an envelope.
pub const ENVELOPE_SIZE: usize = 6;

/// Part 1 of the bytes that stand for an envelope.
#[verifier::opaque]
pub open spec fn envelope_bytes_0(v: Envelope) -> Seq<u8> {
    flag_bytes(v.looping)
        + flag_bytes(v.constant)
        + seq![v.period]
}

/// Part 2 of the bytes that stand for an envelope.
#[verifier::opaque]
pub open spec fn envelope_bytes_1(v: Envelope) -> Seq<u8> {
    seq![v.divider]
        + seq![v.volume]
        + flag_bytes(v.start)
}

/// The bytes that stand for an envelope, field by field.
#[verifier::opaque]
pub open spec fn envelope_bytes(v: Envelope) -> Seq<u8> {
    envelope_bytes_0(v)
        + envelope_bytes_1(v)
}

/// The state of an envelope that the bytes of `b` from offset `o` on stand for.
pub open spec fn envelope_at(b: Seq<u8>, o: int) -> Envelope {
    Envelope {
        looping: flag_at(b, o),
        constant: flag_at(b, o + 1),
        period: u8_at(b, o + 2),
        divider: u8_at(b, o + 3),
        volume: u8_at(b, o + 4),
        start: flag_at(b, o + 5),
    }
}

/// Appends part 1 of the bytes that stand for an envelope.
fn put_envelope_part_0(out: &mut Vec<u8>, v: &Envelope)
    ensures
        final(out)@ == old(out)@ + envelope_bytes_0(*v),
{
    put_flag(out, v.looping);
    put_flag(out, v.constant);
    put_u8(out, v.period);
    proof {
        reveal(envelope_bytes_0);
        assert(out@ =~= old(out)@ + envelope_bytes_0(*v));
    }
}

/// Appends part 2 of the bytes that stand for an envelope.
fn put_envelope_part_1(out: &mut Vec<u8>, v: &Envelope)
    ensures
        final(out)@ == old(out)@ + envelope_bytes_1(*v),
{
    put_u8(out, v.divider);
    put_u8(out, v.volume);
    put_flag(out, v.start);
    proof {
        reveal(envelope_bytes_1);
        assert(out@ =~= old(out)@ + envelope_bytes_1(*v));
    }
}

/// Appends the bytes that stand for an envelope.
pub fn put_envelope(out: &mut Vec<u8>, v: &Envelope)
    ensures
        final(out)@ == old(out)@ + envelope_bytes(*v),
{
    let ghost start = out@;
    proof {
        reveal(envelope_bytes);
    }
    put_envelope_part_0(out, v);
    proof {
        assert(out@ =~= start + (envelope_bytes_0(*v)));
    }
    put_envelope_part_1(out, v);
    proof {
        assert(out@ =~= start + (envelope_bytes_0(*v) + envelope_bytes_1(*v)));
    }
}

/// Reads the state of an envelope that `input` holds at `at`.
pub fn get_envelope(input: &[u8], at: usize) -> (r: Envelope)
    requires
        at + ENVELOPE_SIZE <= input@.len(),
    ensures
        r == envelope_at(input@, at as int),
{
    let _ = input.len();
    Envelope {
        looping: get_flag(input, at),
        constant: get_flag(input, at + 1),
        period: get_u8(input, at + 2),
        divider: get_u8(input, at + 3),
        volume: get_u8(input, at + 4),
        start: get_flag(input, at + 5),
    }
}

/// The fields of part 1 are read back from where its bytes stand.
proof fn lemma_envelope_part_0(pre: Seq<u8>, v: Envelope, post: Seq<u8>)
    ensures
        flag_at(pre + envelope_bytes_0(v) + post, pre.len() as int) == v.looping,
        flag_at(pre + envelope_bytes_0(v) + post, pre.len() as int + 1) == v.constant,
        u8_at(pre + envelope_bytes_0(v) + post, pre.len() as int + 2) == v.period,
        envelope_bytes_0(v).len() == 3,
{
    reveal(envelope_bytes_0);
    let whole = pre + envelope_bytes_0(v) + post;
    assert(whole =~= (pre) + flag_bytes(v.looping) + (flag_bytes(v.constant) + seq![v.period] + post));
    assert((pre).len() == pre.len() + 0);
    assert(whole =~= (pre + flag_bytes(v.looping)) + flag_bytes(v.constant) + (seq![v.period] + post));
    assert((pre + flag_bytes(v.looping)).len() == pre.len() + 1);
    assert(whole =~= (pre + flag_bytes(v.looping) + flag_bytes(v.constant)) + seq![v.period] + (post));
    assert((pre + flag_bytes(v.looping) + flag_bytes(v.constant)).len() == pre.len() + 2);
}

/// The fields of part 2 are read back from where its bytes stand.
proof fn lemma_envelope_part_1(pre: Seq<u8>, v: Envelope, post: Seq<u8>)
    ensures
        u8_at(pre + envelope_bytes_1(v) + post, pre.len() as int) == v.divider,
        u8_at(pre + envelope_bytes_1(v) + post, pre.len() as int + 1) == v.volume,
        flag_at(pre + envelope_bytes_1(v) + post, pre.len() as int + 2) == v.start,
        envelope_bytes_1(v).len() == 3,
{
    reveal(envelope_bytes_1);
    let whole = pre + envelope_bytes_1(v) + post;
    assert(whole =~= (pre) + seq![v.divider] + (seq![v.volume] + flag_bytes(v.start) + post));
    assert((pre).len() == pre.len() + 0);
    assert(whole =~= (pre + seq![v.divider]) + seq![v.volume] + (flag_bytes(v.start) + post));
    assert((pre + seq![v.divider]).len() == pre.len() + 1);
    assert(whole =~= (pre + seq![v.divider] + seq![v.volume]) + flag_bytes(v.start) + (post));
    assert((pre + seq![v.divider] + seq![v.volume]).len() == pre.len() + 2);
}

/// The state of an envelope is read back from where its bytes stand.
pub proof fn lemma_envelope_at(pre: Seq<u8>, v: Envelope, post: Seq<u8>)
    ensures
        envelope_at(pre + envelope_bytes(v) + post, pre.len() as int) == v,
        envelope_bytes(v).len() == ENVELOPE_SIZE,
{
    reveal(envelope_bytes);
    let whole = pre + envelope_bytes(v) + post;
    let p0 = envelope_bytes_0(v);
    let p1 = envelope_bytes_1(v);
    let before0 = pre;
    let before1 = before0 + p0;
    let after1 = post;
    let after0 = p1 + after1;
    assert(whole =~= before1 + p1 + after1);
    assert(before0 + p0 + after0 =~= before1 + p1 + after1);
    lemma_envelope_part_0(before0, v, after0);
    assert(before0.len() == pre.len() + 0);
    lemma_envelope_part_1(before1, v, after1);
    assert(before1.len() == pre.len() + 3);
}

/// Reading behind the first `a` bytes is reading `a` bytes further on.
pub proof fn lemma_envelope_shift(b: Seq<u8>, a: int, o: int)
    requires
        0 <= a,
        0 <= o,
        a + o + ENVELOPE_SIZE <= b.len(),
    ensures
        envelope_at(b.skip(a), o) == envelope_at(b, a + o),
{

}

/// The number of bytes that stand for a sweep.
pub const SWEEP_SIZE: usize = 11;

/// Part 1 of the bytes that stand for a sweep.
#[verifier::opaque]
pub open spec fn sweep_bytes_0(v: Sweep) -> Seq<u8> {
    flag_bytes(v.negation)
        + flag_bytes(v.enabled)
        + seq![v.divider_period]
}

/// Part 2 of the bytes that stand for a sweep.
#[verifier::opaque]
pub open spec fn sweep_bytes_1(v: Sweep) -> Seq<u8> {
    seq![v.divider]
        + flag_bytes(v.negate)
        + seq![v.shift_count]
}

/// Part 3 of the bytes that stand for a sweep.
#[verifier::opaque]
pub open spec fn sweep_bytes_2(v: Sweep) -> Seq<u8> {
    flag_bytes(v.reload)
        + le_bytes(v.period as u64, 2)
        + le_bytes(v.timer as u64, 2)
}

/// The bytes that stand for a sweep, field by field.
#[verifier::opaque]
pub open spec fn sweep_bytes(v: Sweep) -> Seq<u8> {
    sweep_bytes_0(v)
        + sweep_bytes_1(v)
        + sweep_bytes_2(v)
}

/// The state of a sweep that the bytes of `b` from offset `o` on stand for.
pub open spec fn sweep_at(b: Seq<u8>, o: int) -> Sweep {
    Sweep {
        negation: flag_at(b, o),
        enabled: flag_at(b, o + 1),
        divider_period: u8_at(b, o + 2),
        divider: u8_at(b, o + 3),
        negate: flag_at(b, o + 4),
        shift_count: u8_at(b, o + 5),
        reload: flag_at(b, o + 6),
        period: u16_at(b, o + 7),
        timer: u16_at(b, o + 9),
    }
}

/// Appends part 1 of the bytes that stand for a sweep.
fn put_sweep_part_0(out: &mut Vec<u8>, v: &Sweep)
    ensures
        final(out)@ == old(out)@ + sweep_bytes_0(*v),
{
    put_flag(out, v.negation);
    put_flag(out, v.enabled);
    put_u8(out, v.divider_period);
    proof {
        reveal(sweep_bytes_0);
        assert(out@ =~= old(out)@ + sweep_bytes_0(*v));
    }
}

/// Appends part 2 of the bytes that stand for a sweep.
fn put_sweep_part_1(out: &mut Vec<u8>, v: &Sweep)
    ensures
        final(out)@ == old(out)@ + sweep_bytes_1(*v),
{
    put_u8(out, v.divider);
    put_flag(out, v.negate);
    put_u8(out, v.shift_count);
    proof {
        reveal(sweep_bytes_1);
        assert(out@ =~= old(out)@ + sweep_bytes_1(*v));
    }
}

/// Appends part 3 of the bytes that stand for a sweep.
fn put_sweep_part_2(out: &mut Vec<u8>, v: &Sweep)
    ensures
        final(out)@ == old(out)@ + sweep_bytes_2(*v),
{
    put_flag(out, v.reload);
    put_u16(out, v.period);
    put_u16(out, v.timer);
    proof {
        reveal(sweep_bytes_2);
        assert(out@ =~= old(out)@ + sweep_bytes_2(*v));
    }
}

/// Appends the bytes that stand for a sweep.
pub fn put_sweep(out: &mut Vec<u8>, v: &Sweep)
    ensures
        final(out)@ == old(out)@ + sweep_bytes(*v),
{
    let ghost start = out@;
    proof {
        reveal(sweep_bytes);
    }
    put_sweep_part_0(out, v);
    proof {
        assert(out@ =~= start + (sweep_bytes_0(*v)));
    }
    put_sweep_part_1(out, v);
    proof {
        assert(out@ =~= start + (sweep_bytes_0(*v) + sweep_bytes_1(*v)));
    }
    put_sweep_part_2(out, v);
    proof {
        assert(out@ =~= start + (sweep_bytes_0(*v) + sweep_bytes_1(*v) + sweep_bytes_2(*v)));
    }
}

/// Reads the state of a sweep that `input` holds at `at`.
pub fn get_sweep(input: &[u8], at: usize) -> (r: Sweep)
    requires
        at + SWEEP_SIZE <= input@.len(),
    ensures
        r == sweep_at(input@, at as int),
{
    let _ = input.len();
    Sweep {
        negation: get_flag(input, at),
        enabled: get_flag(input, at + 1),
        divider_period: get_u8(input, at + 2),
        divider: get_u8(input, at + 3),
        negate: get_flag(input, at + 4),
        shift_count: get_u8(input, at + 5),
        reload: get_flag(input, at + 6),
        period: get_u16(input, at + 7),
        timer: get_u16(input, at + 9),
    }
}

/// The fields of part 1 are read back from where its bytes stand.
proof fn lemma_sweep_part_0(pre: Seq<u8>, v: Sweep, post: Seq<u8>)
    ensures
        flag_at(pre + sweep_bytes_0(v) + post, pre.len() as int) == v.negation,
        flag_at(pre + sweep_bytes_0(v) + post, pre.len() as int + 1) == v.enabled,
        u8_at(pre + sweep_bytes_0(v) + post, pre.len() as int + 2) == v.divider_period,
        sweep_bytes_0(v).len() == 3,
{
    reveal(sweep_bytes_0);
    let whole = pre + sweep_bytes_0(v) + post;
    assert(whole =~= (pre) + flag_bytes(v.negation) + (flag_bytes(v.enabled) + seq![v.divider_period] + post));
    assert((pre).len() == pre.len() + 0);
    assert(whole =~= (pre + flag_bytes(v.negation)) + flag_bytes(v.enabled) + (seq![v.divider_period] + post));
    assert((pre + flag_bytes(v.negation)).len() == pre.len() + 1);
    assert(whole =~= (pre + flag_bytes(v.negation) + flag_bytes(v.enabled)) + seq![v.divider_period] + (post));
    assert((pre + flag_bytes(v.negation) + flag_bytes(v.enabled)).len() == pre.len() + 2);
}

/// The fields of part 2 are read back from where its bytes stand.
proof fn lemma_sweep_part_1(pre: Seq<u8>, v: Sweep, post: Seq<u8>)
    ensures
        u8_at(pre + sweep_bytes_1(v) + post, pre.len() as int) == v.divider,
        flag_at(pre + sweep_bytes_1(v) + post, pre.len() as int + 1) == v.negate,
        u8_at(pre + sweep_bytes_1(v) + post, pre.len() as int + 2) == v.shift_count,
        sweep_bytes_1(v).len() == 3,
{
    reveal(sweep_bytes_1);
    let whole = pre + sweep_bytes_1(v) + post;
    assert(whole =~= (pre) + seq![v.divider] + (flag_bytes(v.negate) + seq![v.shift_count] + post));
    assert((pre).len() == pre.len() + 0);
    assert(whole =~= (pre + seq![v.divider]) + flag_bytes(v.negate) + (seq![v.shift_count] + post));
    assert((pre + seq![v.divider]).len() == pre.len() + 1);
    assert(whole =~= (pre + seq![v.divider] + flag_bytes(v.negate)) + seq![v.shift_count] + (post));
    assert((pre + seq![v.divider] + flag_bytes(v.negate)).len() == pre.len() + 2);
}

/// The fields of part 3 are read back from where its bytes stand.
proof fn lemma_sweep_part_2(pre: Seq<u8>, v: Sweep, post: Seq<u8>)
    ensures
        flag_at(pre + sweep_bytes_2(v) + post, pre.len() as int) == v.reload,
        u16_at(pre + sweep_bytes_2(v) + post, pre.len() as int + 1) == v.period,
        u16_at(pre + sweep_bytes_2(v) + post, pre.len() as int + 3) == v.timer,
        sweep_bytes_2(v).len() == 5,
{
    reveal(sweep_bytes_2);
    let whole = pre + sweep_bytes_2(v) + post;
    assert(whole =~= (pre) + flag_bytes(v.reload) + (le_bytes(v.period as u64, 2) + le_bytes(v.timer as u64, 2) + post));
    assert((pre).len() == pre.len() + 0);
    lemma_number_at(pre + flag_bytes(v.reload), v.period as u64, 2, le_bytes(v.timer as u64, 2) + post);
    assert(whole =~= (pre + flag_bytes(v.reload)) + le_bytes(v.period as u64, 2) + (le_bytes(v.timer as u64, 2) + post));
    assert((pre + flag_bytes(v.reload)).len() == pre.len() + 1);
    lemma_number_at(pre + flag_bytes(v.reload) + le_bytes(v.period as u64, 2), v.timer as u64, 2, post);
    assert(whole =~= (pre + flag_bytes(v.reload) + le_bytes(v.period as u64, 2)) + le_bytes(v.timer as u64, 2) + (post));
    assert((pre + flag_bytes(v.reload) + le_bytes(v.period as u64, 2)).len() == pre.len() + 3);
}

/// The state of a sweep is read back from where its bytes stand.
pub proof fn lemma_sweep_at(pre: Seq<u8>, v: Sweep, post: Seq<u8>)
    ensures
        sweep_at(pre + sweep_bytes(v) + post, pre.len() as int) == v,
        sweep_bytes(v).len() == SWEEP_SIZE,
{
    reveal(sweep_bytes);
    let whole = pre + sweep_bytes(v) + post;
    let p0 = sweep_bytes_0(v);
    let p1 = sweep_bytes_1(v);
    let p2 = sweep_bytes_2(v);
    let before0 = pre;
    let before1 = before0 + p0;
    let before2 = before1 + p1;
    let after2 = post;
    let after1 = p2 + after2;
    let after0 = p1 + after1;
    assert(whole =~= before2 + p2 + after2);
    assert(before1 + p1 + after1 =~= before2 + p2 + after2);
    assert(before0 + p0 + after0 =~= before1 + p1 + after1);
    lemma_sweep_part_0(before0, v, after0);
    assert(before0.len() == pre.len() + 0);
    lemma_sweep_part_1(before1, v, after1);
    assert(before1.len() == pre.len() + 3);
    lemma_sweep_part_2(before2, v, after2);
    assert(before2.len() == pre.len() + 6);
}

/// Reading behind the first `a` bytes is reading `a` bytes further on.
pub proof fn lemma_sweep_shift(b: Seq<u8>, a: int, o: int)
    requires
        0 <= a,
        0 <= o,
        a + o + SWEEP_SIZE <= b.len(),
    ensures
        sweep_at(b.skip(a), o) == sweep_at(b, a + o),
{
    assert(b.skip(a).subrange(o + 7, o + 9) =~= b.subrange(a + o + 7, a + o + 9));
    assert(b.skip(a).subrange(o + 9, o + 11) =~= b.subrange(a + o + 9, a + o + 11));
}

/// The number of bytes that stand for the frame counter.
pub const FRAME_COUNTER_SIZE: usize = 4;

/// The bytes that stand for the frame counter, field by field.
pub open spec fn frame_counter_bytes(v: FrameCounter) -> Seq<u8> {
    le_bytes(v.step as u64, 2)
        + flag_bytes(v.interrupt_inhibit)
        + flag_bytes(v.mode)
}

/// The state of the frame counter that the bytes of `b` from offset `o` on stand for.
pub open spec fn frame_counter_at(b: Seq<u8>, o: int) -> FrameCounter {
    FrameCounter {
        step: u16_at(b, o),
        interrupt_inhibit: flag_at(b, o + 2),
        mode: flag_at(b, o + 3),
    }
}

/// Appends the bytes that stand for the frame counter.
pub fn put_frame_counter(out: &mut Vec<u8>, v: &FrameCounter)
    ensures
        final(out)@ == old(out)@ + frame_counter_bytes(*v),
{
    put_u16(out, v.step);
    put_flag(out, v.interrupt_inhibit);
    put_flag(out, v.mode);
    proof {
        assert(out@ =~= old(out)@ + frame_counter_bytes(*v));
    }
}

/// Reads the state of the frame counter that `input` holds at `at`.
pub fn get_frame_counter(input: &[u8], at: usize) -> (r: FrameCounter)
    requires
        at + FRAME_COUNTER_SIZE <= input@.len(),
    ensures
        r == frame_counter_at(input@, at as int),
{
    let _ = input.len();
    FrameCounter {
        step: get_u16(input, at),
        interrupt_inhibit: get_flag(input, at + 2),
        mode: get_flag(input, at + 3),
    }
}

/// The state of the frame counter is read back from where its bytes stand.
pub proof fn lemma_frame_counter_at(pre: Seq<u8>, v: FrameCounter, post: Seq<u8>)
    ensures
        frame_counter_at(pre + frame_counter_bytes(v) + post, pre.len() as int) == v,
        frame_counter_bytes(v).len() == FRAME_COUNTER_SIZE,
{
    let whole = pre + frame_counter_bytes(v) + post;
    lemma_number_at(pre, v.step as u64, 2, flag_bytes(v.interrupt_inhibit) + flag_bytes(v.mode) + post);
    assert(whole =~= (pre) + le_bytes(v.step as u64, 2) + (flag_bytes(v.interrupt_inhibit) + flag_bytes(v.mode) + post));
    assert((pre).len() == pre.len() + 0);
    assert(whole =~= (pre + le_bytes(v.step as u64, 2)) + flag_bytes(v.interrupt_inhibit) + (flag_bytes(v.mode) + post));
    assert((pre + le_bytes(v.step as u64, 2)).len() == pre.len() + 2);
    assert(whole =~= (pre + le_bytes(v.step as u64, 2) + flag_bytes(v.interrupt_inhibit)) + flag_bytes(v.mode) + (post));
    assert((pre + le_bytes(v.step as u64, 2) + flag_bytes(v.interrupt_inhibit)).len() == pre.len() + 3);
}

/// Reading behind the first `a` bytes is reading `a` bytes further on.
pub proof fn lemma_frame_counter_shift(b: Seq<u8>, a: int, o: int)
    requires
        0 <= a,
        0 <= o,
        a + o + FRAME_COUNTER_SIZE <= b.len(),
    ensures
        frame_counter_at(b.skip(a), o) == frame_counter_at(b, a + o),
{
    assert(b.skip(a).subrange(o + 0, o + 2) =~= b.subrange(a + o + 0, a + o + 2));
}

/// The number of bytes that stand for the triangle channel.
pub const TRIANGLE_SIZE: usize = 12;

/// The bytes that stand for the triangle channel, field by field.
pub open spec fn triangle_bytes(v: Triangle) -> Seq<u8> {
    le_bytes(v.timer_period as u64, 2)
        + le_bytes(v.timer as u64, 2)
        + seq![v.sequencer_step]
        + length_counter_bytes(v.length_counter)
        + linear_counter_bytes(v.linear_counter)
}

/// The state of the triangle channel that the bytes of `b` from offset `o` on stand for.
pub open spec fn triangle_at(b: Seq<u8>, o: int) -> Triangle {
    Triangle {
        timer_period: u16_at(b, o),
        timer: u16_at(b, o + 2),
        sequencer_step: u8_at(b, o + 4),
        length_counter: length_counter_at(b, o + 5),
        linear_counter: linear_counter_at(b, o + 8),
    }
}

/// Appends the bytes that stand for the triangle channel.
pub fn put_triangle(out: &mut Vec<u8>, v: &Triangle)
    ensures
        final(out)@ == old(out)@ + triangle_bytes(*v),
{
    put_u16(out, v.timer_period);
    put_u16(out, v.timer);
    put_u8(out, v.sequencer_step);
    put_length_counter(out, &v.length_counter);
    put_linear_counter(out, &v.linear_counter);
    proof {
        assert(out@ =~= old(out)@ + triangle_bytes(*v));
    }
}

/// Reads the state of the triangle channel that `input` holds at `at`.
pub fn get_triangle(input: &[u8], at: usize) -> (r: Triangle)
    requires
        at + TRIANGLE_SIZE <= input@.len(),
    ensures
        r == triangle_at(input@, at as int),
{
    let _ = input.len();
    Triangle {
        timer_period: get_u16(input, at),
        timer: get_u16(input, at + 2),
        sequencer_step: get_u8(input, at + 4),
        length_counter: get_length_counter(input, at + 5),
        linear_counter: get_linear_counter(input, at + 8),
    }
}

/// The state of the triangle channel is read back from where its bytes stand.
pub proof fn lemma_triangle_at(pre: Seq<u8>, v: Triangle, post: Seq<u8>)
    ensures
        triangle_at(pre + triangle_bytes(v) + post, pre.len() as int) == v,
        triangle_bytes(v).len() == TRIANGLE_SIZE,
{
    let whole = pre + triangle_bytes(v) + post;
    lemma_number_at(pre, v.timer_period as u64, 2, le_bytes(v.timer as u64, 2) + seq![v.sequencer_step] + length_counter_bytes(v.length_counter) + linear_counter_bytes(v.linear_counter) + post);
    assert(whole =~= (pre) + le_bytes(v.timer_period as u64, 2) + (le_bytes(v.timer as u64, 2) + seq![v.sequencer_step] + length_counter_bytes(v.length_counter) + linear_counter_bytes(v.linear_counter) + post));
    assert((pre).len() == pre.len() + 0);
    lemma_number_at(pre + le_bytes(v.timer_period as u64, 2), v.timer as u64, 2, seq![v.sequencer_step] + length_counter_bytes(v.length_counter) + linear_counter_bytes(v.linear_counter) + post);
    assert(whole =~= (pre + le_bytes(v.timer_period as u64, 2)) + le_bytes(v.timer as u64, 2) + (seq![v.sequencer_step] + length_counter_bytes(v.length_counter) + linear_counter_bytes(v.linear_counter) + post));
    assert((pre + le_bytes(v.timer_period as u64, 2)).len() == pre.len() + 2);
    assert(whole =~= (pre + le_bytes(v.timer_period as u64, 2) + le_bytes(v.timer as u64, 2)) + seq![v.sequencer_step] + (length_counter_bytes(v.length_counter) + linear_counter_bytes(v.linear_counter) + post));
    assert((pre + le_bytes(v.timer_period as u64, 2) + le_bytes(v.timer as u64, 2)).len() == pre.len() + 4);
    lemma_length_counter_at(pre + le_bytes(v.timer_period as u64, 2) + le_bytes(v.timer as u64, 2) + seq![v.sequencer_step], v.length_counter, linear_counter_bytes(v.linear_counter) + post);
    assert(whole =~= (pre + le_bytes(v.timer_period as u64, 2) + le_bytes(v.timer as u64, 2) + seq![v.sequencer_step]) + length_counter_bytes(v.length_counter) + (linear_counter_bytes(v.linear_counter) + post));
    assert((pre + le_bytes(v.timer_period as u64, 2) + le_bytes(v.timer as u64, 2) + seq![v.sequencer_step]).len() == pre.len() + 5);
    lemma_linear_counter_at(pre + le_bytes(v.timer_period as u64, 2) + le_bytes(v.timer as u64, 2) + seq![v.sequencer_step] + length_counter_bytes(v.length_counter), v.linear_counter, post);
    assert(whole =~= (pre + le_bytes(v.timer_period as u64, 2) + le_bytes(v.timer as u64, 2) + seq![v.sequencer_step] + length_counter_bytes(v.length_counter)) + linear_counter_bytes(v.linear_counter) + (post));
    assert((pre + le_bytes(v.timer_period as u64, 2) + le_bytes(v.timer as u64, 2) + seq![v.sequencer_step] + length_counter_bytes(v.length_counter)).len() == pre.len() + 8);
}

/// Reading behind the first `a` bytes is reading `a` bytes further on.
pub proof fn lemma_triangle_shift(b: Seq<u8>, a: int, o: int)
    requires
        0 <= a,
        0 <= o,
        a + o + TRIANGLE_SIZE <= b.len(),
    ensures
        triangle_at(b.skip(a), o) == triangle_at(b, a + o),
{
    assert(b.skip(a).subrange(o + 0, o + 2) =~= b.subrange(a + o + 0, a + o + 2));
    assert(b.skip(a).subrange(o + 2, o + 4) =~= b.subrange(a + o + 2, a + o + 4));
    lemma_length_counter_shift(b, a, o + 5);
    lemma_linear_counter_shift(b, a, o + 8);
}

/// The number of bytes that stand for a pulse channel.
pub const PULSE_SIZE: usize = 26;

/// Part 1 of the bytes that stand for a pulse channel.
#[verifier::opaque]
pub open spec fn pulse_bytes_0(v: Pulse) -> Seq<u8> {
    sweep_bytes(v.sweep)
        + le_bytes(v.timer_period as u64, 2)
        + le_bytes(v.timer as u64, 2)
}

/// Part 2 of the bytes that stand for a pulse channel.
#[verifier::opaque]
pub open spec fn pulse_bytes_1(v: Pulse) -> Seq<u8> {
    seq![v.duty_cycle]
        + seq![v.sequencer_step]
        + envelope_bytes(v.envelope)
}

/// Part 3 of the bytes that stand for a pulse channel.
#[verifier::opaque]
pub open spec fn pulse_bytes_2(v: Pulse) -> Seq<u8> {
    length_counter_bytes(v.length_counter)
}

/// The bytes that stand for a pulse channel, field by field.
#[verifier::opaque]
pub open spec fn pulse_bytes(v: Pulse) -> Seq<u8> {
    pulse_bytes_0(v)
        + pulse_bytes_1(v)
        + pulse_bytes_2(v)
}

/// The state of a pulse channel that the bytes of `b` from offset `o` on stand for.
pub open spec fn pulse_at(b: Seq<u8>, o: int) -> Pulse {
    Pulse {
        sweep: sweep_at(b, o),
        timer_period: u16_at(b, o + 11),
        timer: u16_at(b, o + 13),
        duty_cycle: u8_at(b, o + 15),
        sequencer_step: u8_at(b, o + 16),
        envelope: envelope_at(b, o + 17),
        length_counter: length_counter_at(b, o + 23),
    }
}

/// Appends part 1 of the bytes that stand for a pulse channel.
fn put_pulse_part_0(out: &mut Vec<u8>, v: &Pulse)
    ensures
        final(out)@ == old(out)@ + pulse_bytes_0(*v),
{
    put_sweep(out, &v.sweep);
    put_u16(out, v.timer_period);
    put_u16(out, v.timer);
    proof {
        reveal(pulse_bytes_0);
        assert(out@ =~= old(out)@ + pulse_bytes_0(*v));
    }
}

/// Appends part 2 of the bytes that stand for a pulse channel.
fn put_pulse_part_1(out: &mut Vec<u8>, v: &Pulse)
    ensures
        final(out)@ == old(out)@ + pulse_bytes_1(*v),
{
    put_u8(out, v.duty_cycle);
    put_u8(out, v.sequencer_step);
    put_envelope(out, &v.envelope);
    proof {
        reveal(pulse_bytes_1);
        assert(out@ =~= old(out)@ + pulse_bytes_1(*v));
    }
}

/// Appends part 3 of the bytes that stand for a pulse channel.
fn put_pulse_part_2(out: &mut Vec<u8>, v: &Pulse)
    ensures
        final(out)@ == old(out)@ + pulse_bytes_2(*v),
{
    put_length_counter(out, &v.length_counter);
    proof {
        reveal(pulse_bytes_2);
        assert(out@ =~= old(out)@ + pulse_bytes_2(*v));
    }
}

/// Appends the bytes that stand for a pulse channel.
pub fn put_pulse(out: &mut Vec<u8>, v: &Pulse)
    ensures
        final(out)@ == old(out)@ + pulse_bytes(*v),
{
    let ghost start = out@;
    proof {
        reveal(pulse_bytes);
    }
    put_pulse_part_0(out, v);
    proof {
        assert(out@ =~= start + (pulse_bytes_0(*v)));
    }
    put_pulse_part_1(out, v);
    proof {
        assert(out@ =~= start + (pulse_bytes_0(*v) + pulse_bytes_1(*v)));
    }
    put_pulse_part_2(out, v);
    proof {
        assert(out@ =~= start + (pulse_bytes_0(*v) + pulse_bytes_1(*v) + pulse_bytes_2(*v)));
    }
}

/// Reads the state of a pulse channel that `input` holds at `at`.
pub fn get_pulse(input: &[u8], at: usize) -> (r: Pulse)
    requires
        at + PULSE_SIZE <= input@.len(),
    ensures
        r == pulse_at(input@, at as int),
{
    let _ = input.len();
    Pulse {
        sweep: get_sweep(input, at),
        timer_period: get_u16(input, at + 11),
        timer: get_u16(input, at + 13),
        duty_cycle: get_u8(input, at + 15),
        sequencer_step: get_u8(input, at + 16),
        envelope: get_envelope(input, at + 17),
        length_counter: get_length_counter(input, at + 23),
    }
}

/// The fields of part 1 are read back from where its bytes stand.
proof fn lemma_pulse_part_0(pre: Seq<u8>, v: Pulse, post: Seq<u8>)
    ensures
        sweep_at(pre + pulse_bytes_0(v) + post, pre.len() as int) == v.sweep,
        u16_at(pre + pulse_bytes_0(v) + post, pre.len() as int + 11) == v.timer_period,
        u16_at(pre + pulse_bytes_0(v) + post, pre.len() as int + 13) == v.timer,
        pulse_bytes_0(v).len() == 15,
{
    reveal(pulse_bytes_0);
    let whole = pre + pulse_bytes_0(v) + post;
    lemma_sweep_at(pre, v.sweep, le_bytes(v.timer_period as u64, 2) + le_bytes(v.timer as u64, 2) + post);
    assert(whole =~= (pre) + sweep_bytes(v.sweep) + (le_bytes(v.timer_period as u64, 2) + le_bytes(v.timer as u64, 2) + post));
    assert((pre).len() == pre.len() + 0);
    lemma_number_at(pre + sweep_bytes(v.sweep), v.timer_period as u64, 2, le_bytes(v.timer as u64, 2) + post);
    assert(whole =~= (pre + sweep_bytes(v.sweep)) + le_bytes(v.timer_period as u64, 2) + (le_bytes(v.timer as u64, 2) + post));
    assert((pre + sweep_bytes(v.sweep)).len() == pre.len() + 11);
    lemma_number_at(pre + sweep_bytes(v.sweep) + le_bytes(v.timer_period as u64, 2), v.timer as u64, 2, post);
    assert(whole =~= (pre + sweep_bytes(v.sweep) + le_bytes(v.timer_period as u64, 2)) + le_bytes(v.timer as u64, 2) + (post));
    assert((pre + sweep_bytes(v.sweep) + le_bytes(v.timer_period as u64, 2)).len() == pre.len() + 13);
}

/// The fields of part 2 are read back from where its bytes stand.
proof fn lemma_pulse_part_1(pre: Seq<u8>, v: Pulse, post: Seq<u8>)
    ensures
        u8_at(pre + pulse_bytes_1(v) + post, pre.len() as int) == v.duty_cycle,
        u8_at(pre + pulse_bytes_1(v) + post, pre.len() as int + 1) == v.sequencer_step,
        envelope_at(pre + pulse_bytes_1(v) + post, pre.len() as int + 2) == v.envelope,
        pulse_bytes_1(v).len() == 8,
{
    reveal(pulse_bytes_1);
    let whole = pre + pulse_bytes_1(v) + post;
    assert(whole =~= (pre) + seq![v.duty_cycle] + (seq![v.sequencer_step] + envelope_bytes(v.envelope) + post));
    assert((pre).len() == pre.len() + 0);
    assert(whole =~= (pre + seq![v.duty_cycle]) + seq![v.sequencer_step] + (envelope_bytes(v.envelope) + post));
    assert((pre + seq![v.duty_cycle]).len() == pre.len() + 1);
    lemma_envelope_at(pre + seq![v.duty_cycle] + seq![v.sequencer_step], v.envelope, post);
    assert(whole =~= (pre + seq![v.duty_cycle] + seq![v.sequencer_step]) + envelope_bytes(v.envelope) + (post));
    assert((pre + seq![v.duty_cycle] + seq![v.sequencer_step]).len() == pre.len() + 2);
}

/// The fields of part 3 are read back from where its bytes stand.
proof fn lemma_pulse_part_2(pre: Seq<u8>, v: Pulse, post: Seq<u8>)
    ensures
        length_counter_at(pre + pulse_bytes_2(v) + post, pre.len() as int) == v.length_counter,
        pulse_bytes_2(v).len() == 3,
{
    reveal(pulse_bytes_2);
    let whole = pre + pulse_bytes_2(v) + post;
    lemma_length_counter_at(pre, v.length_counter, post);
    assert(whole =~= (pre) + length_counter_bytes(v.length_counter) + (post));
    assert((pre).len() == pre.len() + 0);
}

/// The state of a pulse channel is read back from where its bytes stand.
pub proof fn lemma_pulse_at(pre: Seq<u8>, v: Pulse, post: Seq<u8>)
    ensures
        pulse_at(pre + pulse_bytes(v) + post, pre.len() as int) == v,
        pulse_bytes(v).len() == PULSE_SIZE,
{
    reveal(pulse_bytes);
    let whole = pre + pulse_bytes(v) + post;
    let p0 = pulse_bytes_0(v);
    let p1 = pulse_bytes_1(v);
    let p2 = pulse_bytes_2(v);
    let before0 = pre;
    let before1 = before0 + p0;
    let before2 = before1 + p1;
    let after2 = post;
    let after1 = p2 + after2;
    let after0 = p1 + after1;
    assert(whole =~= before2 + p2 + after2);
    assert(before1 + p1 + after1 =~= before2 + p2 + after2);
    assert(before0 + p0 + after0 =~= before1 + p1 + after1);
    lemma_pulse_part_0(before0, v, after0);
    assert(before0.len() == pre.len() + 0);
    lemma_pulse_part_1(before1, v, after1);
    assert(before1.len() == pre.len() + 15);
    lemma_pulse_part_2(before2, v, after2);
    assert(before2.len() == pre.len() + 23);
}

/// Reading behind the first `a` bytes is reading `a` bytes further on.
pub proof fn lemma_pulse_shift(b: Seq<u8>, a: int, o: int)
    requires
        0 <= a,
        0 <= o,
        a + o + PULSE_SIZE <= b.len(),
    ensures
        pulse_at(b.skip(a), o) == pulse_at(b, a + o),
{
    lemma_sweep_shift(b, a, o + 0);
    assert(b.skip(a).subrange(o + 11, o + 13) =~= b.subrange(a + o + 11, a + o + 13));
    assert(b.skip(a).subrange(o + 13, o + 15) =~= b.subrange(a + o + 13, a + o + 15));
    lemma_envelope_shift(b, a, o + 17);
    lemma_length_counter_shift(b, a, o + 23);
}

/// The number of bytes that stand for the noise channel.
pub const NOISE_SIZE: usize = 16;

/// Part 1 of the bytes that stand for the noise channel.
#[verifier::opaque]
pub open spec fn noise_bytes_0(v: Noise) -> Seq<u8> {
    envelope_bytes(v.envelope)
        + length_counter_bytes(v.length_counter)
        + flag_bytes(v.mode)
}

/// Part 2 of the bytes that stand for the noise channel.
#[verifier::opaque]
pub open spec fn noise_bytes_1(v: Noise) -> Seq<u8> {
    le_bytes(v.period as u64, 2)
        + le_bytes(v.feedback as u64, 2)
        + le_bytes(v.timer as u64, 2)
}

/// The bytes that stand for the noise channel, field by field.
#[verifier::opaque]
pub open spec fn noise_bytes(v: Noise) -> Seq<u8> {
    noise_bytes_0(v)
        + noise_bytes_1(v)
}

/// The state of the noise channel that the bytes of `b` from offset `o` on stand for.
pub open spec fn noise_at(b: Seq<u8>, o: int) -> Noise {
    Noise {
        envelope: envelope_at(b, o),
        length_counter: length_counter_at(b, o + 6),
        mode: flag_at(b, o + 9),
        period: u16_at(b, o + 10),
        feedback: u16_at(b, o + 12),
        timer: u16_at(b, o + 14),
    }
}

/// Appends part 1 of the bytes that stand for the noise channel.
fn put_noise_part_0(out: &mut Vec<u8>, v: &Noise)
    ensures
        final(out)@ == old(out)@ + noise_bytes_0(*v),
{
    put_envelope(out, &v.envelope);
    put_length_counter(out, &v.length_counter);
    put_flag(out, v.mode);
    proof {
        reveal(noise_bytes_0);
        assert(out@ =~= old(out)@ + noise_bytes_0(*v));
    }
}

/// Appends part 2 of the bytes that stand for the noise channel.
fn put_noise_part_1(out: &mut Vec<u8>, v: &Noise)
    ensures
        final(out)@ == old(out)@ + noise_bytes_1(*v),
{
    put_u16(out, v.period);
    put_u16(out, v.feedback);
    put_u16(out, v.timer);
    proof {
        reveal(noise_bytes_1);
        assert(out@ =~= old(out)@ + noise_bytes_1(*v));
    }
}

/// Appends the bytes that stand for the noise channel.
pub fn put_noise(out: &mut Vec<u8>, v: &Noise)
    ensures
        final(out)@ == old(out)@ + noise_bytes(*v),
{
    let ghost start = out@;
    proof {
        reveal(noise_bytes);
    }
    put_noise_part_0(out, v);
    proof {
        assert(out@ =~= start + (noise_bytes_0(*v)));
    }
    put_noise_part_1(out, v);
    proof {
        assert(out@ =~= start + (noise_bytes_0(*v) + noise_bytes_1(*v)));
    }
}

/// Reads the state of the noise channel that `input` holds at `at`.
pub fn get_noise(input: &[u8], at: usize) -> (r: Noise)
    requires
        at + NOISE_SIZE <= input@.len(),
    ensures
        r == noise_at(input@, at as int),
{
    let _ = input.len();
    Noise {
        envelope: get_envelope(input, at),
        length_counter: get_length_counter(input, at + 6),
        mode: get_flag(input, at + 9),
        period: get_u16(input, at + 10),
        feedback: get_u16(input, at + 12),
        timer: get_u16(input, at + 14),
    }
}

/// The fields of part 1 are read back from where its bytes stand.
proof fn lemma_noise_part_0(pre: Seq<u8>, v: Noise, post: Seq<u8>)
    ensures
        envelope_at(pre + noise_bytes_0(v) + post, pre.len() as int) == v.envelope,
        length_counter_at(pre + noise_bytes_0(v) + post, pre.len() as int + 6) == v.length_counter,
        flag_at(pre + noise_bytes_0(v) + post, pre.len() as int + 9) == v.mode,
        noise_bytes_0(v).len() == 10,
{
    reveal(noise_bytes_0);
    let whole = pre + noise_bytes_0(v) + post;
    lemma_envelope_at(pre, v.envelope, length_counter_bytes(v.length_counter) + flag_bytes(v.mode) + post);
    assert(whole =~= (pre) + envelope_bytes(v.envelope) + (length_counter_bytes(v.length_counter) + flag_bytes(v.mode) + post));
    assert((pre).len() == pre.len() + 0);
    lemma_length_counter_at(pre + envelope_bytes(v.envelope), v.length_counter, flag_bytes(v.mode) + post);
    assert(whole =~= (pre + envelope_bytes(v.envelope)) + length_counter_bytes(v.length_counter) + (flag_bytes(v.mode) + post));
    assert((pre + envelope_bytes(v.envelope)).len() == pre.len() + 6);
    assert(whole =~= (pre + envelope_bytes(v.envelope) + length_counter_bytes(v.length_counter)) + flag_bytes(v.mode) + (post));
    assert((pre + envelope_bytes(v.envelope) + length_counter_bytes(v.length_counter)).len() == pre.len() + 9);
}

/// The fields of part 2 are read back from where its bytes stand.
proof fn lemma_noise_part_1(pre: Seq<u8>, v: Noise, post: Seq<u8>)
    ensures
        u16_at(pre + noise_bytes_1(v) + post, pre.len() as int) == v.period,
        u16_at(pre + noise_bytes_1(v) + post, pre.len() as int + 2) == v.feedback,
        u16_at(pre + noise_bytes_1(v) + post, pre.len() as int + 4) == v.timer,
        noise_bytes_1(v).len() == 6,
{
    reveal(noise_bytes_1);
    let whole = pre + noise_bytes_1(v) + post;
    lemma_number_at(pre, v.period as u64, 2, le_bytes(v.feedback as u64, 2) + le_bytes(v.timer as u64, 2) + post);
    assert(whole =~= (pre) + le_bytes(v.period as u64, 2) + (le_bytes(v.feedback as u64, 2) + le_bytes(v.timer as u64, 2) + post));
    assert((pre).len() == pre.len() + 0);
    lemma_number_at(pre + le_bytes(v.period as u64, 2), v.feedback as u64, 2, le_bytes(v.timer as u64, 2) + post);
    assert(whole =~= (pre + le_bytes(v.period as u64, 2)) + le_bytes(v.feedback as u64, 2) + (le_bytes(v.timer as u64, 2) + post));
    assert((pre + le_bytes(v.period as u64, 2)).len() == pre.len() + 2);
    lemma_number_at(pre + le_bytes(v.period as u64, 2) + le_bytes(v.feedback as u64, 2), v.timer as u64, 2, post);
    assert(whole =~= (pre + le_bytes(v.period as u64, 2) + le_bytes(v.feedback as u64, 2)) + le_bytes(v.timer as u64, 2) + (post));
    assert((pre + le_bytes(v.period as u64, 2) + le_bytes(v.feedback as u64, 2)).len() == pre.len() + 4);
}

/// The state of the noise channel is read back from where its bytes stand.
pub proof fn lemma_noise_at(pre: Seq<u8>, v: Noise, post: Seq<u8>)
    ensures
        noise_at(pre + noise_bytes(v) + post, pre.len() as int) == v,
        noise_bytes(v).len() == NOISE_SIZE,
{
    reveal(noise_bytes);
    let whole = pre + noise_bytes(v) + post;
    let p0 = noise_bytes_0(v);
    let p1 = noise_bytes_1(v);
    let before0 = pre;
    let before1 = before0 + p0;
    let after1 = post;
    let after0 = p1 + after1;
    assert(whole =~= before1 + p1 + after1);
    assert(before0 + p0 + after0 =~= before1 + p1 + after1);
    lemma_noise_part_0(before0, v, after0);
    assert(before0.len() == pre.len() + 0);
    lemma_noise_part_1(before1, v, after1);
    assert(before1.len() == pre.len() + 10);
}

/// Reading behind the first `a` bytes is reading `a` bytes further on.
pub proof fn lemma_noise_shift(b: Seq<u8>, a: int, o: int)
    requires
        0 <= a,
        0 <= o,
        a + o + NOISE_SIZE <= b.len(),
    ensures
        noise_at(b.skip(a), o) == noise_at(b, a + o),
{
    lemma_envelope_shift(b, a, o + 0);
    lemma_length_counter_shift(b, a, o + 6);
    assert(b.skip(a).subrange(o + 10, o + 12) =~= b.subrange(a + o + 10, a + o + 12));
    assert(b.skip(a).subrange(o + 12, o + 14) =~= b.subrange(a + o + 12, a + o + 14));
    assert(b.skip(a).subrange(o + 14, o + 16) =~= b.subrange(a + o + 14, a + o + 16));
}

/// The number of bytes that stand for the sampled channel.
pub const DMC_SIZE: usize = 1;

/// The bytes that stand for the sampled channel, field by field.
pub open spec fn dmc_bytes(v: Dmc) -> Seq<u8> {
    flag_bytes(v.enabled)
}

/// The state of the sampled channel that the bytes of `b` from offset `o` on stand for.
pub open spec fn dmc_at(b: Seq<u8>, o: int) -> Dmc {
    Dmc {
        enabled: flag_at(b, o),
    }
}

/// Appends the bytes that stand for the sampled channel.
pub fn put_dmc(out: &mut Vec<u8>, v: &Dmc)
    ensures
        final(out)@ == old(out)@ + dmc_bytes(*v),
{
    put_flag(out, v.enabled);
    proof {
        assert(out@ =~= old(out)@ + dmc_bytes(*v));
    }
}

/// Reads the state of the sampled channel that `input` holds at `at`.
pub fn get_dmc(input: &[u8], at: usize) -> (r: Dmc)
    requires
        at + DMC_SIZE <= input@.len(),
    ensures
        r == dmc_at(input@, at as int),
{
    let _ = input.len();
    Dmc {
        enabled: get_flag(input, at),
    }
}

/// The state of the sampled channel is read back from where its bytes stand.
pub proof fn lemma_dmc_at(pre: Seq<u8>, v: Dmc, post: Seq<u8>)
    ensures
        dmc_at(pre + dmc_bytes(v) + post, pre.len() as int) == v,
        dmc_bytes(v).len() == DMC_SIZE,
{
    let whole = pre + dmc_bytes(v) + post;
    assert(whole =~= (pre) + flag_bytes(v.enabled) + (post));
    assert((pre).len() == pre.len() + 0);
}

/// Reading behind the first `a` bytes is reading `a` bytes further on.
pub proof fn lemma_dmc_shift(b: Seq<u8>, a: int, o: int)
    requires
        0 <= a,
        0 <= o,
        a + o + DMC_SIZE <= b.len(),
    ensures
        dmc_at(b.skip(a), o) == dmc_at(b, a + o),
{

}

/// The number of bytes that stand for the audio processor.
pub const APU_CORE_SIZE: usize = 102;

/// Part 1 of the bytes that stand for the audio processor.
#[verifier::opaque]
pub open spec fn apu_core_bytes_0(v: ApuCore) -> Seq<u8> {
    flag_bytes(v.is_recording)
        + le_bytes(v.cycle, 8)
        + le_bytes(v.sample_phase, 8)
}

/// Part 2 of the bytes that stand for the audio processor.
#[verifier::opaque]
pub open spec fn apu_core_bytes_1(v: ApuCore) -> Seq<u8> {
    frame_counter_bytes(v.frame_counter)
        + pulse_bytes(v.pulse1)
        + pulse_bytes(v.pulse2)
}

/// Part 3 of the bytes that stand for the audio processor.
#[verifier::opaque]
pub open spec fn apu_core_bytes_2(v: ApuCore) -> Seq<u8> {
    triangle_bytes(v.triangle)
        + noise_bytes(v.noise)
        + dmc_bytes(v.dmc)
}

/// The bytes that stand for the audio processor, field by field.
#[verifier::opaque]
pub open spec fn apu_core_bytes(v: ApuCore) -> Seq<u8> {
    apu_core_bytes_0(v)
        + apu_core_bytes_1(v)
        + apu_core_bytes_2(v)
}

/// The state of the audio processor that the bytes of `b` from offset `o` on stand for.
pub open spec fn apu_core_at(b: Seq<u8>, o: int) -> ApuCore {
    ApuCore {
        is_recording: flag_at(b, o),
        cycle: u64_at(b, o + 1),
        sample_phase: u64_at(b, o + 9),
        frame_counter: frame_counter_at(b, o + 17),
        pulse1: pulse_at(b, o + 21),
        pulse2: pulse_at(b, o + 47),
        triangle: triangle_at(b, o + 73),
        noise: noise_at(b, o + 85),
        dmc: dmc_at(b, o + 101),
    }
}

/// Appends part 1 of the bytes that stand for the audio processor.
fn put_apu_core_part_0(out: &mut Vec<u8>, v: &ApuCore)
    ensures
        final(out)@ == old(out)@ + apu_core_bytes_0(*v),
{
    put_flag(out, v.is_recording);
    put_u64(out, v.cycle);
    put_u64(out, v.sample_phase);
    proof {
        reveal(apu_core_bytes_0);
        assert(out@ =~= old(out)@ + apu_core_bytes_0(*v));
    }
}

/// Appends part 2 of the bytes that stand for the audio processor.
fn put_apu_core_part_1(out: &mut Vec<u8>, v: &ApuCore)
    ensures
        final(out)@ == old(out)@ + apu_core_bytes_1(*v),
{
    put_frame_counter(out, &v.frame_counter);
    put_pulse(out, &v.pulse1);
    put_pulse(out, &v.pulse2);
    proof {
        reveal(apu_core_bytes_1);
        assert(out@ =~= old(out)@ + apu_core_bytes_1(*v));
    }
}

/// Appends part 3 of the bytes that stand for the audio processor.
fn put_apu_core_part_2(out: &mut Vec<u8>, v: &ApuCore)
    ensures
        final(out)@ == old(out)@ + apu_core_bytes_2(*v),
{
    put_triangle(out, &v.triangle);
    put_noise(out, &v.noise);
    put_dmc(out, &v.dmc);
    proof {
        reveal(apu_core_bytes_2);
        assert(out@ =~= old(out)@ + apu_core_bytes_2(*v));
    }
}

/// Appends the bytes that stand for the audio processor.
pub fn put_apu_core(out: &mut Vec<u8>, v: &ApuCore)
    ensures
        final(out)@ == old(out)@ + apu_core_bytes(*v),
{
    let ghost start = out@;
    proof {
        reveal(apu_core_bytes);
    }
    put_apu_core_part_0(out, v);
    proof {
        assert(out@ =~= start + (apu_core_bytes_0(*v)));
    }
    put_apu_core_part_1(out, v);
    proof {
        assert(out@ =~= start + (apu_core_bytes_0(*v) + apu_core_bytes_1(*v)));
    }
    put_apu_core_part_2(out, v);
    proof {
        assert(out@ =~= start + (apu_core_bytes_0(*v) + apu_core_bytes_1(*v) + apu_core_bytes_2(*v)));
    }
}

/// Reads the state of the audio processor that `input` holds at `at`.
pub fn get_apu_core(input: &[u8], at: usize) -> (r: ApuCore)
    requires
        at + APU_CORE_SIZE <= input@.len(),
    ensures
        r == apu_core_at(input@, at as int),
{
    let _ = input.len();
    ApuCore {
        is_recording: get_flag(input, at),
        cycle: get_u64(input, at + 1),
        sample_phase: get_u64(input, at + 9),
        frame_counter: get_frame_counter(input, at + 17),
        pulse1: get_pulse(input, at + 21),
        pulse2: get_pulse(input, at + 47),
        triangle: get_triangle(input, at + 73),
        noise: get_noise(input, at + 85),
        dmc: get_dmc(input, at + 101),
    }
}

/// The fields of part 1 are read back from where its bytes stand.
proof fn lemma_apu_core_part_0(pre: Seq<u8>, v: ApuCore, post: Seq<u8>)
    ensures
        flag_at(pre + apu_core_bytes_0(v) + post, pre.len() as int) == v.is_recording,
        u64_at(pre + apu_core_bytes_0(v) + post, pre.len() as int + 1) == v.cycle,
        u64_at(pre + apu_core_bytes_0(v) + post, pre.len() as int + 9) == v.sample_phase,
        apu_core_bytes_0(v).len() == 17,
{
    reveal(apu_core_bytes_0);
    let whole = pre + apu_core_bytes_0(v) + post;
    assert(whole =~= (pre) + flag_bytes(v.is_recording) + (le_bytes(v.cycle, 8) + le_bytes(v.sample_phase, 8) + post));
    assert((pre).len() == pre.len() + 0);
    lemma_number_at(pre + flag_bytes(v.is_recording), v.cycle as u64, 8, le_bytes(v.sample_phase, 8) + post);
    assert(whole =~= (pre + flag_bytes(v.is_recording)) + le_bytes(v.cycle, 8) + (le_bytes(v.sample_phase, 8) + post));
    assert((pre + flag_bytes(v.is_recording)).len() == pre.len() + 1);
    lemma_number_at(pre + flag_bytes(v.is_recording) + le_bytes(v.cycle, 8), v.sample_phase as u64, 8, post);
    assert(whole =~= (pre + flag_bytes(v.is_recording) + le_bytes(v.cycle, 8)) + le_bytes(v.sample_phase, 8) + (post));
    assert((pre + flag_bytes(v.is_recording) + le_bytes(v.cycle, 8)).len() == pre.len() + 9);
}

/// The fields of part 2 are read back from where its bytes stand.
proof fn lemma_apu_core_part_1(pre: Seq<u8>, v: ApuCore, post: Seq<u8>)
    ensures
        frame_counter_at(pre + apu_core_bytes_1(v) + post, pre.len() as int) == v.frame_counter,
        pulse_at(pre + apu_core_bytes_1(v) + post, pre.len() as int + 4) == v.pulse1,
        pulse_at(pre + apu_core_bytes_1(v) + post, pre.len() as int + 30) == v.pulse2,
        apu_core_bytes_1(v).len() == 56,
{
    reveal(apu_core_bytes_1);
    let whole = pre + apu_core_bytes_1(v) + post;
    lemma_frame_counter_at(pre, v.frame_counter, pulse_bytes(v.pulse1) + pulse_bytes(v.pulse2) + post);
    assert(whole =~= (pre) + frame_counter_bytes(v.frame_counter) + (pulse_bytes(v.pulse1) + pulse_bytes(v.pulse2) + post));
    assert((pre).len() == pre.len() + 0);
    lemma_pulse_at(pre + frame_counter_bytes(v.frame_counter), v.pulse1, pulse_bytes(v.pulse2) + post);
    assert(whole =~= (pre + frame_counter_bytes(v.frame_counter)) + pulse_bytes(v.pulse1) + (pulse_bytes(v.pulse2) + post));
    assert((pre + frame_counter_bytes(v.frame_counter)).len() == pre.len() + 4);
    lemma_pulse_at(pre + frame_counter_bytes(v.frame_counter) + pulse_bytes(v.pulse1), v.pulse2, post);
    assert(whole =~= (pre + frame_counter_bytes(v.frame_counter) + pulse_bytes(v.pulse1)) + pulse_bytes(v.pulse2) + (post));
    assert((pre + frame_counter_bytes(v.frame_counter) + pulse_bytes(v.pulse1)).len() == pre.len() + 30);
}

/// The fields of part 3 are read back from where its bytes stand.
proof fn lemma_apu_core_part_2(pre: Seq<u8>, v: ApuCore, post: Seq<u8>)
    ensures
        triangle_at(pre + apu_core_bytes_2(v) + post, pre.len() as int) == v.triangle,
        noise_at(pre + apu_core_bytes_2(v) + post, pre.len() as int + 12) == v.noise,
        dmc_at(pre + apu_core_bytes_2(v) + post, pre.len() as int + 28) == v.dmc,
        apu_core_bytes_2(v).len() == 29,
{
    reveal(apu_core_bytes_2);
    let whole = pre + apu_core_bytes_2(v) + post;
    lemma_triangle_at(pre, v.triangle, noise_bytes(v.noise) + dmc_bytes(v.dmc) + post);
    assert(whole =~= (pre) + triangle_bytes(v.triangle) + (noise_bytes(v.noise) + dmc_bytes(v.dmc) + post));
    assert((pre).len() == pre.len() + 0);
    lemma_noise_at(pre + triangle_bytes(v.triangle), v.noise, dmc_bytes(v.dmc) + post);
    assert(whole =~= (pre + triangle_bytes(v.triangle)) + noise_bytes(v.noise) + (dmc_bytes(v.dmc) + post));
    assert((pre + triangle_bytes(v.triangle)).len() == pre.len() + 12);
    lemma_dmc_at(pre + triangle_bytes(v.triangle) + noise_bytes(v.noise), v.dmc, post);
    assert(whole =~= (pre + triangle_bytes(v.triangle) + noise_bytes(v.noise)) + dmc_bytes(v.dmc) + (post));
    assert((pre + triangle_bytes(v.triangle) + noise_bytes(v.noise)).len() == pre.len() + 28);
}

/// The state of the audio processor is read back from where its bytes stand.
pub proof fn lemma_apu_core_at(pre: Seq<u8>, v: ApuCore, post: Seq<u8>)
    ensures
        apu_core_at(pre + apu_core_bytes(v) + post, pre.len() as int) == v,
        apu_core_bytes(v).len() == APU_CORE_SIZE,
{
    reveal(apu_core_bytes);
    let whole = pre + apu_core_bytes(v) + post;
    let p0 = apu_core_bytes_0(v);
    let p1 = apu_core_bytes_1(v);
    let p2 = apu_core_bytes_2(v);
    let before0 = pre;
    let before1 = before0 + p0;
    let before2 = before1 + p1;
    let after2 = post;
    let after1 = p2 + after2;
    let after0 = p1 + after1;
    assert(whole =~= before2 + p2 + after2);
    assert(before1 + p1 + after1 =~= before2 + p2 + after2);
    assert(before0 + p0 + after0 =~= before1 + p1 + after1);
    lemma_apu_core_part_0(before0, v, after0);
    assert(before0.len() == pre.len() + 0);
    lemma_apu_core_part_1(before1, v, after1);
    assert(before1.len() == pre.len() + 17);
    lemma_apu_core_part_2(before2, v, after2);
    assert(before2.len() == pre.len() + 73);
}

/// Reading behind the first `a` bytes is reading `a` bytes further on.
pub proof fn lemma_apu_core_shift(b: Seq<u8>, a: int, o: int)
    requires
        0 <= a,
        0 <= o,
        a + o + APU_CORE_SIZE <= b.len(),
    ensures
        apu_core_at(b.skip(a), o) == apu_core_at(b, a + o),
{
    assert(b.skip(a).subrange(o + 1, o + 9) =~= b.subrange(a + o + 1, a + o + 9));
    assert(b.skip(a).subrange(o + 9, o + 17) =~= b.subrange(a + o + 9, a + o + 17));
    lemma_frame_counter_shift(b, a, o + 17);
    lemma_pulse_shift(b, a, o + 21);
    lemma_pulse_shift(b, a, o + 47);
    lemma_triangle_shift(b, a, o + 73);
    lemma_noise_shift(b, a, o + 85);
    lemma_dmc_shift(b, a, o + 101);
}

impl View for ApuCore {
    type V = ApuCore;

    open spec fn view(&self) -> ApuCore {
        *self
    }
}

impl Savable for ApuCore {
    open spec fn encoding(v: ApuCore) -> Seq<u8> {
        apu_core_bytes(v)
    }

    open spec fn decoding(shape: ApuCore, bytes: Seq<u8>) -> Result<(ApuCore, nat), LoadError> {
        if bytes.len() >= APU_CORE_SIZE {
            Ok((apu_core_at(bytes, 0), APU_CORE_SIZE as nat))
        } else {
            Err(LoadError::UnexpectedEnd)
        }
    }

    fn save(&self, out: &mut Vec<u8>) {
        put_apu_core(out, self);
    }

    fn load(&mut self, input: &[u8], at: usize) -> (r: Result<usize, LoadError>) {
        if input.len() - at < APU_CORE_SIZE {
            return Err(LoadError::UnexpectedEnd);
        }
        proof {
            lemma_apu_core_shift(input@, at as int, 0);
        }
        *self = get_apu_core(input, at);
        Ok(at + APU_CORE_SIZE)
    }
}

/// The number of bytes that stand for the processor.
pub const CPU_STATE_SIZE: usize = 34;

/// Part 1 of the bytes that stand for the processor.
#[verifier::opaque]
pub open spec fn cpu_state_bytes_0(v: CpuState) -> Seq<u8> {
    seq![v.acc]
        + seq![v.x]
        + seq![v.y]
}

/// Part 2 of the bytes that stand for the processor.
#[verifier::opaque]
pub open spec fn cpu_state_bytes_1(v: CpuState) -> Seq<u8> {
    le_bytes(v.pc as u64, 2)
        + seq![v.sp]
        + flag_bytes(v.carry)
}

/// Part 3 of the bytes that stand for the processor.
#[verifier::opaque]
pub open spec fn cpu_state_bytes_2(v: CpuState) -> Seq<u8> {
    flag_bytes(v.zero)
        + flag_bytes(v.interruptd)
        + flag_bytes(v.decimal)
}

/// Part 4 of the bytes that stand for the processor.
#[verifier::opaque]
pub open spec fn cpu_state_bytes_3(v: CpuState) -> Seq<u8> {
    flag_bytes(v.overflow)
        + flag_bytes(v.negative)
        + le_bytes(v.counter, 8)
}

/// Part 5 of the bytes that stand for the processor.
#[verifier::opaque]
pub open spec fn cpu_state_bytes_4(v: CpuState) -> Seq<u8> {
    le_bytes(v.clocks, 8)
        + flag_bytes(v.is_tracing)
        + le_bytes(v.clocks_to_pause as u64, 2)
}

/// Part 6 of the bytes that stand for the processor.
#[verifier::opaque]
pub open spec fn cpu_state_bytes_5(v: CpuState) -> Seq<u8> {
    flag_bytes(v.halted)
        + seq![v.halt_code]
        + seq![v.open_bus]
}

/// The bytes that stand for the processor, field by field.
#[verifier::opaque]
pub open spec fn cpu_state_bytes(v: CpuState) -> Seq<u8> {
    cpu_state_bytes_0(v)
        + cpu_state_bytes_1(v)
        + cpu_state_bytes_2(v)
        + cpu_state_bytes_3(v)
        + cpu_state_bytes_4(v)
        + cpu_state_bytes_5(v)
}

/// The state of the processor that the bytes of `b` from offset `o` on stand for.
pub open spec fn cpu_state_at(b: Seq<u8>, o: int) -> CpuState {
    CpuState {
        acc: u8_at(b, o),
        x: u8_at(b, o + 1),
        y: u8_at(b, o + 2),
        pc: u16_at(b, o + 3),
        sp: u8_at(b, o + 5),
        carry: flag_at(b, o + 6),
        zero: flag_at(b, o + 7),
        interruptd: flag_at(b, o + 8),
        decimal: flag_at(b, o + 9),
        overflow: flag_at(b, o + 10),
        negative: flag_at(b, o + 11),
        counter: u64_at(b, o + 12),
        clocks: u64_at(b, o + 20),
        is_tracing: flag_at(b, o + 28),
        clocks_to_pause: u16_at(b, o + 29),
        halted: flag_at(b, o + 31),
        halt_code: u8_at(b, o + 32),
        open_bus: u8_at(b, o + 33),
    }
}

/// Appends part 1 of the bytes that stand for the processor.
fn put_cpu_state_part_0(out: &mut Vec<u8>, v: &CpuState)
    ensures
        final(out)@ == old(out)@ + cpu_state_bytes_0(*v),
{
    put_u8(out, v.acc);
    put_u8(out, v.x);
    put_u8(out, v.y);
    proof {
        reveal(cpu_state_bytes_0);
        assert(out@ =~= old(out)@ + cpu_state_bytes_0(*v));
    }
}

/// Appends part 2 of the bytes that stand for the processor.
fn put_cpu_state_part_1(out: &mut Vec<u8>, v: &CpuState)
    ensures
        final(out)@ == old(out)@ + cpu_state_bytes_1(*v),
{
    put_u16(out, v.pc);
    put_u8(out, v.sp);
    put_flag(out, v.carry);
    proof {
        reveal(cpu_state_bytes_1);
        assert(out@ =~= old(out)@ + cpu_state_bytes_1(*v));
    }
}

/// Appends part 3 of the bytes that stand for the processor.
fn put_cpu_state_part_2(out: &mut Vec<u8>, v: &CpuState)
    ensures
        final(out)@ == old(out)@ + cpu_state_bytes_2(*v),
{
    put_flag(out, v.zero);
    put_flag(out, v.interruptd);
    put_flag(out, v.decimal);
    proof {
        reveal(cpu_state_bytes_2);
        assert(out@ =~= old(out)@ + cpu_state_bytes_2(*v));
    }
}

/// Appends part 4 of the bytes that stand for the processor.
fn put_cpu_state_part_3(out: &mut Vec<u8>, v: &CpuState)
    ensures
        final(out)@ == old(out)@ + cpu_state_bytes_3(*v),
{
    put_flag(out, v.overflow);
    put_flag(out, v.negative);
    put_u64(out, v.counter);
    proof {
        reveal(cpu_state_bytes_3);
        assert(out@ =~= old(out)@ + cpu_state_bytes_3(*v));
    }
}

/// Appends part 5 of the bytes that stand for the processor.
fn put_cpu_state_part_4(out: &mut Vec<u8>, v: &CpuState)
    ensures
        final(out)@ == old(out)@ + cpu_state_bytes_4(*v),
{
    put_u64(out, v.clocks);
    put_flag(out, v.is_tracing);
    put_u16(out, v.clocks_to_pause);
    proof {
        reveal(cpu_state_bytes_4);
        assert(out@ =~= old(out)@ + cpu_state_bytes_4(*v));
    }
}

/// Appends part 6 of the bytes that stand for the processor.
fn put_cpu_state_part_5(out: &mut Vec<u8>, v: &CpuState)
    ensures
        final(out)@ == old(out)@ + cpu_state_bytes_5(*v),
{
    put_flag(out, v.halted);
    put_u8(out, v.halt_code);
    put_u8(out, v.open_bus);
    proof {
        reveal(cpu_state_bytes_5);
        assert(out@ =~= old(out)@ + cpu_state_bytes_5(*v));
    }
}

/// Appends the bytes that stand for the processor.
pub fn put_cpu_state(out: &mut Vec<u8>, v: &CpuState)
    ensures
        final(out)@ == old(out)@ + cpu_state_bytes(*v),
{
    let ghost start = out@;
    proof {
        reveal(cpu_state_bytes);
    }
    put_cpu_state_part_0(out, v);
    proof {
        assert(out@ =~= start + (cpu_state_bytes_0(*v)));
    }
    put_cpu_state_part_1(out, v);
    proof {
        assert(out@ =~= start + (cpu_state_bytes_0(*v) + cpu_state_bytes_1(*v)));
    }
    put_cpu_state_part_2(out, v);
    proof {
        assert(out@ =~= start + (cpu_state_bytes_0(*v) + cpu_state_bytes_1(*v) + cpu_state_bytes_2(*v)));
    }
    put_cpu_state_part_3(out, v);
    proof {
        assert(out@ =~= start + (cpu_state_bytes_0(*v) + cpu_state_bytes_1(*v) + cpu_state_bytes_2(*v) + cpu_state_bytes_3(*v)));
    }
    put_cpu_state_part_4(out, v);
    proof {
        assert(out@ =~= start + (cpu_state_bytes_0(*v) + cpu_state_bytes_1(*v) + cpu_state_bytes_2(*v) + cpu_state_bytes_3(*v) + cpu_state_bytes_4(*v)));
    }
    put_cpu_state_part_5(out, v);
    proof {
        assert(out@ =~= start + (cpu_state_bytes_0(*v) + cpu_state_bytes_1(*v) + cpu_state_bytes_2(*v) + cpu_state_bytes_3(*v) + cpu_state_bytes_4(*v) + cpu_state_bytes_5(*v)));
    }
}

/// Reads the state of the processor that `input` holds at `at`.
pub fn get_cpu_state(input: &[u8], at: usize) -> (r: CpuState)
    requires
        at + CPU_STATE_SIZE <= input@.len(),
    ensures
        r == cpu_state_at(input@, at as int),
{
    let _ = input.len();
    CpuState {
        acc: get_u8(input, at),
        x: get_u8(input, at + 1),
        y: get_u8(input, at + 2),
        pc: get_u16(input, at + 3),
        sp: get_u8(input, at + 5),
        carry: get_flag(input, at + 6),
        zero: get_flag(input, at + 7),
        interruptd: get_flag(input, at + 8),
        decimal: get_flag(input, at + 9),
        overflow: get_flag(input, at + 10),
        negative: get_flag(input, at + 11),
        counter: get_u64(input, at + 12),
        clocks: get_u64(input, at + 20),
        is_tracing: get_flag(input, at + 28),
        clocks_to_pause: get_u16(input, at + 29),
        halted: get_flag(input, at + 31),
        halt_code: get_u8(input, at + 32),
        open_bus: get_u8(input, at + 33),
    }
}

/// The fields of part 1 are read back from where its bytes stand.
proof fn lemma_cpu_state_part_0(pre: Seq<u8>, v: CpuState, post: Seq<u8>)
    ensures
        u8_at(pre + cpu_state_bytes_0(v) + post, pre.len() as int) == v.acc,
        u8_at(pre + cpu_state_bytes_0(v) + post, pre.len() as int + 1) == v.x,
        u8_at(pre + cpu_state_bytes_0(v) + post, pre.len() as int + 2) == v.y,
        cpu_state_bytes_0(v).len() == 3,
{
    reveal(cpu_state_bytes_0);
    let whole = pre + cpu_state_bytes_0(v) + post;
    assert(whole =~= (pre) + seq![v.acc] + (seq![v.x] + seq![v.y] + post));
    assert((pre).len() == pre.len() + 0);
    assert(whole =~= (pre + seq![v.acc]) + seq![v.x] + (seq![v.y] + post));
    assert((pre + seq![v.acc]).len() == pre.len() + 1);
    assert(whole =~= (pre + seq![v.acc] + seq![v.x]) + seq![v.y] + (post));
    assert((pre + seq![v.acc] + seq![v.x]).len() == pre.len() + 2);
}

/// The fields of part 2 are read back from where its bytes stand.
proof fn lemma_cpu_state_part_1(pre: Seq<u8>, v: CpuState, post: Seq<u8>)
    ensures
        u16_at(pre + cpu_state_bytes_1(v) + post, pre.len() as int) == v.pc,
        u8_at(pre + cpu_state_bytes_1(v) + post, pre.len() as int + 2) == v.sp,
        flag_at(pre + cpu_state_bytes_1(v) + post, pre.len() as int + 3) == v.carry,
        cpu_state_bytes_1(v).len() == 4,
{
    reveal(cpu_state_bytes_1);
    let whole = pre + cpu_state_bytes_1(v) + post;
    lemma_number_at(pre, v.pc as u64, 2, seq![v.sp] + flag_bytes(v.carry) + post);
    assert(whole =~= (pre) + le_bytes(v.pc as u64, 2) + (seq![v.sp] + flag_bytes(v.carry) + post));
    assert((pre).len() == pre.len() + 0);
    assert(whole =~= (pre + le_bytes(v.pc as u64, 2)) + seq![v.sp] + (flag_bytes(v.carry) + post));
    assert((pre + le_bytes(v.pc as u64, 2)).len() == pre.len() + 2);
    assert(whole =~= (pre + le_bytes(v.pc as u64, 2) + seq![v.sp]) + flag_bytes(v.carry) + (post));
    assert((pre + le_bytes(v.pc as u64, 2) + seq![v.sp]).len() == pre.len() + 3);
}

/// The fields of part 3 are read back from where its bytes stand.
proof fn lemma_cpu_state_part_2(pre: Seq<u8>, v: CpuState, post: Seq<u8>)
    ensures
        flag_at(pre + cpu_state_bytes_2(v) + post, pre.len() as int) == v.zero,
        flag_at(pre + cpu_state_bytes_2(v) + post, pre.len() as int + 1) == v.interruptd,
        flag_at(pre + cpu_state_bytes_2(v) + post, pre.len() as int + 2) == v.decimal,
        cpu_state_bytes_2(v).len() == 3,
{
    reveal(cpu_state_bytes_2);
    let whole = pre + cpu_state_bytes_2(v) + post;
    assert(whole =~= (pre) + flag_bytes(v.zero) + (flag_bytes(v.interruptd) + flag_bytes(v.decimal) + post));
    assert((pre).len() == pre.len() + 0);
    assert(whole =~= (pre + flag_bytes(v.zero)) + flag_bytes(v.interruptd) + (flag_bytes(v.decimal) + post));
    assert((pre + flag_bytes(v.zero)).len() == pre.len() + 1);
    assert(whole =~= (pre + flag_bytes(v.zero) + flag_bytes(v.interruptd)) + flag_bytes(v.decimal) + (post));
    assert((pre + flag_bytes(v.zero) + flag_bytes(v.interruptd)).len() == pre.len() + 2);
}

/// The fields of part 4 are read back from where its bytes stand.
proof fn lemma_cpu_state_part_3(pre: Seq<u8>, v: CpuState, post: Seq<u8>)
    ensures
        flag_at(pre + cpu_state_bytes_3(v) + post, pre.len() as int) == v.overflow,
        flag_at(pre + cpu_state_bytes_3(v) + post, pre.len() as int + 1) == v.negative,
        u64_at(pre + cpu_state_bytes_3(v) + post, pre.len() as int + 2) == v.counter,
        cpu_state_bytes_3(v).len() == 10,
{
    reveal(cpu_state_bytes_3);
    let whole = pre + cpu_state_bytes_3(v) + post;
    assert(whole =~= (pre) + flag_bytes(v.overflow) + (flag_bytes(v.negative) + le_bytes(v.counter, 8) + post));
    assert((pre).len() == pre.len() + 0);
    assert(whole =~= (pre + flag_bytes(v.overflow)) + flag_bytes(v.negative) + (le_bytes(v.counter, 8) + post));
    assert((pre + flag_bytes(v.overflow)).len() == pre.len() + 1);
    lemma_number_at(pre + flag_bytes(v.overflow) + flag_bytes(v.negative), v.counter as u64, 8, post);
    assert(whole =~= (pre + flag_bytes(v.overflow) + flag_bytes(v.negative)) + le_bytes(v.counter, 8) + (post));
    assert((pre + flag_bytes(v.overflow) + flag_bytes(v.negative)).len() == pre.len() + 2);
}

/// The fields of part 5 are read back from where its bytes stand.
proof fn lemma_cpu_state_part_4(pre: Seq<u8>, v: CpuState, post: Seq<u8>)
    ensures
        u64_at(pre + cpu_state_bytes_4(v) + post, pre.len() as int) == v.clocks,
        flag_at(pre + cpu_state_bytes_4(v) + post, pre.len() as int + 8) == v.is_tracing,
        u16_at(pre + cpu_state_bytes_4(v) + post, pre.len() as int + 9) == v.clocks_to_pause,
        cpu_state_bytes_4(v).len() == 11,
{
    reveal(cpu_state_bytes_4);
    let whole = pre + cpu_state_bytes_4(v) + post;
    lemma_number_at(pre, v.clocks as u64, 8, flag_bytes(v.is_tracing) + le_bytes(v.clocks_to_pause as u64, 2) + post);
    assert(whole =~= (pre) + le_bytes(v.clocks, 8) + (flag_bytes(v.is_tracing) + le_bytes(v.clocks_to_pause as u64, 2) + post));
    assert((pre).len() == pre.len() + 0);
    assert(whole =~= (pre + le_bytes(v.clocks, 8)) + flag_bytes(v.is_tracing) + (le_bytes(v.clocks_to_pause as u64, 2) + post));
    assert((pre + le_bytes(v.clocks, 8)).len() == pre.len() + 8);
    lemma_number_at(pre + le_bytes(v.clocks, 8) + flag_bytes(v.is_tracing), v.clocks_to_pause as u64, 2, post);
    assert(whole =~= (pre + le_bytes(v.clocks, 8) + flag_bytes(v.is_tracing)) + le_bytes(v.clocks_to_pause as u64, 2) + (post));
    assert((pre + le_bytes(v.clocks, 8) + flag_bytes(v.is_tracing)).len() == pre.len() + 9);
}

/// The fields of part 6 are read back from where its bytes stand.
proof fn lemma_cpu_state_part_5(pre: Seq<u8>, v: CpuState, post: Seq<u8>)
    ensures
        flag_at(pre + cpu_state_bytes_5(v) + post, pre.len() as int) == v.halted,
        u8_at(pre + cpu_state_bytes_5(v) + post, pre.len() as int + 1) == v.halt_code,
        u8_at(pre + cpu_state_bytes_5(v) + post, pre.len() as int + 2) == v.open_bus,
        cpu_state_bytes_5(v).len() == 3,
{
    reveal(cpu_state_bytes_5);
    let whole = pre + cpu_state_bytes_5(v) + post;
    assert(whole =~= (pre) + flag_bytes(v.halted) + (seq![v.halt_code] + seq![v.open_bus] + post));
    assert((pre).len() == pre.len() + 0);
    assert(whole =~= (pre + flag_bytes(v.halted)) + seq![v.halt_code] + (seq![v.open_bus] + post));
    assert((pre + flag_bytes(v.halted)).len() == pre.len() + 1);
    assert(whole =~= (pre + flag_bytes(v.halted) + seq![v.halt_code]) + seq![v.open_bus] + (post));
    assert((pre + flag_bytes(v.halted) + seq![v.halt_code]).len() == pre.len() + 2);
}

/// The state of the processor is read back from where its bytes stand.
pub proof fn lemma_cpu_state_at(pre: Seq<u8>, v: CpuState, post: Seq<u8>)
    ensures
        cpu_state_at(pre + cpu_state_bytes(v) + post, pre.len() as int) == v,
        cpu_state_bytes(v).len() == CPU_STATE_SIZE,
{
    reveal(cpu_state_bytes);
    let whole = pre + cpu_state_bytes(v) + post;
    let p0 = cpu_state_bytes_0(v);
    let p1 = cpu_state_bytes_1(v);
    let p2 = cpu_state_bytes_2(v);
    let p3 = cpu_state_bytes_3(v);
    let p4 = cpu_state_bytes_4(v);
    let p5 = cpu_state_bytes_5(v);
    let before0 = pre;
    let before1 = before0 + p0;
    let before2 = before1 + p1;
    let before3 = before2 + p2;
    let before4 = before3 + p3;
    let before5 = before4 + p4;
    let after5 = post;
    let after4 = p5 + after5;
    let after3 = p4 + after4;
    let after2 = p3 + after3;
    let after1 = p2 + after2;
    let after0 = p1 + after1;
    assert(whole =~= before5 + p5 + after5);
    assert(before4 + p4 + after4 =~= before5 + p5 + after5);
    assert(before3 + p3 + after3 =~= before4 + p4 + after4);
    assert(before2 + p2 + after2 =~= before3 + p3 + after3);
    assert(before1 + p1 + after1 =~= before2 + p2 + after2);
    assert(before0 + p0 + after0 =~= before1 + p1 + after1);
    lemma_cpu_state_part_0(before0, v, after0);
    assert(before0.len() == pre.len() + 0);
    lemma_cpu_state_part_1(before1, v, after1);
    assert(before1.len() == pre.len() + 3);
    lemma_cpu_state_part_2(before2, v, after2);
    assert(before2.len() == pre.len() + 7);
    lemma_cpu_state_part_3(before3, v, after3);
    assert(before3.len() == pre.len() + 10);
    lemma_cpu_state_part_4(before4, v, after4);
    assert(before4.len() == pre.len() + 20);
    lemma_cpu_state_part_5(before5, v, after5);
    assert(before5.len() == pre.len() + 31);
}

/// Reading behind the first `a` bytes is reading `a` bytes further on.
pub proof fn lemma_cpu_state_shift(b: Seq<u8>, a: int, o: int)
    requires
        0 <= a,
        0 <= o,
        a + o + CPU_STATE_SIZE <= b.len(),
    ensures
        cpu_state_at(b.skip(a), o) == cpu_state_at(b, a + o),
{
    assert(b.skip(a).subrange(o + 3, o + 5) =~= b.subrange(a + o + 3, a + o + 5));
    assert(b.skip(a).subrange(o + 12, o + 20) =~= b.subrange(a + o + 12, a + o + 20));
    assert(b.skip(a).subrange(o + 20, o + 28) =~= b.subrange(a + o + 20, a + o + 28));
    assert(b.skip(a).subrange(o + 29, o + 31) =~= b.subrange(a + o + 29, a + o + 31));
}

impl View for CpuState {
    type V = CpuState;

    open spec fn view(&self) -> CpuState {
        *self
    }
}

impl Savable for CpuState {
    open spec fn encoding(v: CpuState) -> Seq<u8> {
        cpu_state_bytes(v)
    }

    open spec fn decoding(shape: CpuState, bytes: Seq<u8>) -> Result<(CpuState, nat), LoadError> {
        if bytes.len() >= CPU_STATE_SIZE {
            Ok((cpu_state_at(bytes, 0), CPU_STATE_SIZE as nat))
        } else {
            Err(LoadError::UnexpectedEnd)
        }
    }

    fn save(&self, out: &mut Vec<u8>) {
        put_cpu_state(out, self);
    }

    fn load(&mut self, input: &[u8], at: usize) -> (r: Result<usize, LoadError>) {
        if input.len() - at < CPU_STATE_SIZE {
            return Err(LoadError::UnexpectedEnd);
        }
        proof {
            lemma_cpu_state_shift(input@, at as int, 0);
        }
        *self = get_cpu_state(input, at);
        Ok(at + CPU_STATE_SIZE)
    }
}

/// The number of bytes that stand for a controller.
pub const JOYSTICK_SIZE: usize = 3;

/// The bytes that stand for a controller, field by field.
pub open spec fn joystick_bytes(v: Joystick) -> Seq<u8> {
    seq![v.buttons]
        + seq![v.buttons_register]
        + flag_bytes(v.strobe_active)
}

/// The state of a controller that the bytes of `b` from offset `o` on stand for.
pub open spec fn joystick_at(b: Seq<u8>, o: int) -> Joystick {
    Joystick {
        buttons: u8_at(b, o),
        buttons_register: u8_at(b, o + 1),
        strobe_active: flag_at(b, o + 2),
    }
}

/// Appends the bytes that stand for a controller.
pub fn put_joystick(out: &mut Vec<u8>, v: &Joystick)
    ensures
        final(out)@ == old(out)@ + joystick_bytes(*v),
{
    put_u8(out, v.buttons);
    put_u8(out, v.buttons_register);
    put_flag(out, v.strobe_active);
    proof {
        assert(out@ =~= old(out)@ + joystick_bytes(*v));
    }
}

/// Reads the state of a controller that `input` holds at `at`.
pub fn get_joystick(input: &[u8], at: usize) -> (r: Joystick)
    requires
        at + JOYSTICK_SIZE <= input@.len(),
    ensures
        r == joystick_at(input@, at as int),
{
    let _ = input.len();
    Joystick {
        buttons: get_u8(input, at),
        buttons_register: get_u8(input, at + 1),
        strobe_active: get_flag(input, at + 2),
    }
}

/// The state of a controller is read back from where its bytes stand.
pub proof fn lemma_joystick_at(pre: Seq<u8>, v: Joystick, post: Seq<u8>)
    ensures
        joystick_at(pre + joystick_bytes(v) + post, pre.len() as int) == v,
        joystick_bytes(v).len() == JOYSTICK_SIZE,
{
    let whole = pre + joystick_bytes(v) + post;
    assert(whole =~= (pre) + seq![v.buttons] + (seq![v.buttons_register] + flag_bytes(v.strobe_active) + post));
    assert((pre).len() == pre.len() + 0);
    assert(whole =~= (pre + seq![v.buttons]) + seq![v.buttons_register] + (flag_bytes(v.strobe_active) + post));
    assert((pre + seq![v.buttons]).len() == pre.len() + 1);
    assert(whole =~= (pre + seq![v.buttons] + seq![v.buttons_register]) + flag_bytes(v.strobe_active) + (post));
    assert((pre + seq![v.buttons] + seq![v.buttons_register]).len() == pre.len() + 2);
}

/// Reading behind the first `a` bytes is reading `a` bytes further on.
pub proof fn lemma_joystick_shift(b: Seq<u8>, a: int, o: int)
    requires
        0 <= a,
        0 <= o,
        a + o + JOYSTICK_SIZE <= b.len(),
    ensures
        joystick_at(b.skip(a), o) == joystick_at(b, a + o),
{

}

impl Savable for Joystick {
    open spec fn encoding(v: Joystick) -> Seq<u8> {
        joystick_bytes(v)
    }

    open spec fn decoding(shape: Joystick, bytes: Seq<u8>) -> Result<(Joystick, nat), LoadError> {
        if bytes.len() >= JOYSTICK_SIZE {
            Ok((joystick_at(bytes, 0), JOYSTICK_SIZE as nat))
        } else {
            Err(LoadError::UnexpectedEnd)
        }
    }

    fn save(&self, out: &mut Vec<u8>) {
        put_joystick(out, self);
    }

    fn load(&mut self, input: &[u8], at: usize) -> (r: Result<usize, LoadError>) {
        if input.len() - at < JOYSTICK_SIZE {
            return Err(LoadError::UnexpectedEnd);
        }
        proof {
            lemma_joystick_shift(input@, at as int, 0);
        }
        *self = get_joystick(input, at);
        Ok(at + JOYSTICK_SIZE)
    }
}

/// The number of bytes that stand for the scroll registers.
pub const PPU_REGISTERS_SIZE: usize = 15;

/// Part 1 of the bytes that stand for the scroll registers.
#[verifier::opaque]
pub open spec fn ppu_registers_bytes_0(v: PpuRegisters) -> Seq<u8> {
    le_bytes(v.v as u64, 2)
        + le_bytes(v.t as u64, 2)
        + seq![v.x]
}

/// Part 2 of the bytes that stand for the scroll registers.
#[verifier::opaque]
pub open spec fn ppu_registers_bytes_1(v: PpuRegisters) -> Seq<u8> {
    flag_bytes(v.w)
        + flag_bytes(v.vram_increment)
        + flag_bytes(v.is_greyscale)
}

/// Part 3 of the bytes that stand for the scroll registers.
#[verifier::opaque]
pub open spec fn ppu_registers_bytes_2(v: PpuRegisters) -> Seq<u8> {
    flag_bytes(v.background_enabled)
        + flag_bytes(v.sprites_enabled)
        + flag_bytes(v.emphasize_red)
}

/// Part 4 of the bytes that stand for the scroll registers.
#[verifier::opaque]
pub open spec fn ppu_registers_bytes_3(v: PpuRegisters) -> Seq<u8> {
    flag_bytes(v.emphasize_green)
        + flag_bytes(v.emphasize_blue)
        + flag_bytes(v.show_leftmost_background)
}

/// Part 5 of the bytes that stand for the scroll registers.
#[verifier::opaque]
pub open spec fn ppu_registers_bytes_4(v: PpuRegisters) -> Seq<u8> {
    flag_bytes(v.show_leftmost_sprite)
}

/// The bytes that stand for the scroll registers, field by field.
#[verifier::opaque]
pub open spec fn ppu_registers_bytes(v: PpuRegisters) -> Seq<u8> {
    ppu_registers_bytes_0(v)
        + ppu_registers_bytes_1(v)
        + ppu_registers_bytes_2(v)
        + ppu_registers_bytes_3(v)
        + ppu_registers_bytes_4(v)
}

/// The state of the scroll registers that the bytes of `b` from offset `o` on stand for.
pub open spec fn ppu_registers_at(b: Seq<u8>, o: int) -> PpuRegisters {
    PpuRegisters {
        v: u16_at(b, o),
        t: u16_at(b, o + 2),
        x: u8_at(b, o + 4),
        w: flag_at(b, o + 5),
        vram_increment: flag_at(b, o + 6),
        is_greyscale: flag_at(b, o + 7),
        background_enabled: flag_at(b, o + 8),
        sprites_enabled: flag_at(b, o + 9),
        emphasize_red: flag_at(b, o + 10),
        emphasize_green: flag_at(b, o + 11),
        emphasize_blue: flag_at(b, o + 12),
        show_leftmost_background: flag_at(b, o + 13),
        show_leftmost_sprite: flag_at(b, o + 14),
    }
}

/// Appends part 1 of the bytes that stand for the scroll registers.
fn put_ppu_registers_part_0(out: &mut Vec<u8>, v: &PpuRegisters)
    ensures
        final(out)@ == old(out)@ + ppu_registers_bytes_0(*v),
{
    put_u16(out, v.v);
    put_u16(out, v.t);
    put_u8(out, v.x);
    proof {
        reveal(ppu_registers_bytes_0);
        assert(out@ =~= old(out)@ + ppu_registers_bytes_0(*v));
    }
}

/// Appends part 2 of the bytes that stand for the scroll registers.
fn put_ppu_registers_part_1(out: &mut Vec<u8>, v: &PpuRegisters)
    ensures
        final(out)@ == old(out)@ + ppu_registers_bytes_1(*v),
{
    put_flag(out, v.w);
    put_flag(out, v.vram_increment);
    put_flag(out, v.is_greyscale);
    proof {
        reveal(ppu_registers_bytes_1);
        assert(out@ =~= old(out)@ + ppu_registers_bytes_1(*v));
    }
}

/// Appends part 3 of the bytes that stand for the scroll registers.
fn put_ppu_registers_part_2(out: &mut Vec<u8>, v: &PpuRegisters)
    ensures
        final(out)@ == old(out)@ + ppu_registers_bytes_2(*v),
{
    put_flag(out, v.background_enabled);
    put_flag(out, v.sprites_enabled);
    put_flag(out, v.emphasize_red);
    proof {
        reveal(ppu_registers_bytes_2);
        assert(out@ =~= old(out)@ + ppu_registers_bytes_2(*v));
    }
}

/// Appends part 4 of the bytes that stand for the scroll registers.
fn put_ppu_registers_part_3(out: &mut Vec<u8>, v: &PpuRegisters)
    ensures
        final(out)@ == old(out)@ + ppu_registers_bytes_3(*v),
{
    put_flag(out, v.emphasize_green);
    put_flag(out, v.emphasize_blue);
    put_flag(out, v.show_leftmost_background);
    proof {
        reveal(ppu_registers_bytes_3);
        assert(out@ =~= old(out)@ + ppu_registers_bytes_3(*v));
    }
}

/// Appends part 5 of the bytes that stand for the scroll registers.
fn put_ppu_registers_part_4(out: &mut Vec<u8>, v: &PpuRegisters)
    ensures
        final(out)@ == old(out)@ + ppu_registers_bytes_4(*v),
{
    put_flag(out, v.show_leftmost_sprite);
    proof {
        reveal(ppu_registers_bytes_4);
        assert(out@ =~= old(out)@ + ppu_registers_bytes_4(*v));
    }
}

/// Appends the bytes that stand for the scroll registers.
pub fn put_ppu_registers(out: &mut Vec<u8>, v: &PpuRegisters)
    ensures
        final(out)@ == old(out)@ + ppu_registers_bytes(*v),
{
    let ghost start = out@;
    proof {
        reveal(ppu_registers_bytes);
    }
    put_ppu_registers_part_0(out, v);
    proof {
        assert(out@ =~= start + (ppu_registers_bytes_0(*v)));
    }
    put_ppu_registers_part_1(out, v);
    proof {
        assert(out@ =~= start + (ppu_registers_bytes_0(*v) + ppu_registers_bytes_1(*v)));
    }
    put_ppu_registers_part_2(out, v);
    proof {
        assert(out@ =~= start + (ppu_registers_bytes_0(*v) + ppu_registers_bytes_1(*v) + ppu_registers_bytes_2(*v)));
    }
    put_ppu_registers_part_3(out, v);
    proof {
        assert(out@ =~= start + (ppu_registers_bytes_0(*v) + ppu_registers_bytes_1(*v) + ppu_registers_bytes_2(*v) + ppu_registers_bytes_3(*v)));
    }
    put_ppu_registers_part_4(out, v);
    proof {
        assert(out@ =~= start + (ppu_registers_bytes_0(*v) + ppu_registers_bytes_1(*v) + ppu_registers_bytes_2(*v) + ppu_registers_bytes_3(*v) + ppu_registers_bytes_4(*v)));
    }
}

/// Reads the state of the scroll registers that `input` holds at `at`.
pub fn get_ppu_registers(input: &[u8], at: usize) -> (r: PpuRegisters)
    requires
        at + PPU_REGISTERS_SIZE <= input@.len(),
    ensures
        r == ppu_registers_at(input@, at as int),
{
    let _ = input.len();
    PpuRegisters {
        v: get_u16(input, at),
        t: get_u16(input, at + 2),
        x: get_u8(input, at + 4),
        w: get_flag(input, at + 5),
        vram_increment: get_flag(input, at + 6),
        is_greyscale: get_flag(input, at + 7),
        background_enabled: get_flag(input, at + 8),
        sprites_enabled: get_flag(input, at + 9),
        emphasize_red: get_flag(input, at + 10),
        emphasize_green: get_flag(input, at + 11),
        emphasize_blue: get_flag(input, at + 12),
        show_leftmost_background: get_flag(input, at + 13),
        show_leftmost_sprite: get_flag(input, at + 14),
    }
}

/// The fields of part 1 are read back from where its bytes stand.
proof fn lemma_ppu_registers_part_0(pre: Seq<u8>, v: PpuRegisters, post: Seq<u8>)
    ensures
        u16_at(pre + ppu_registers_bytes_0(v) + post, pre.len() as int) == v.v,
        u16_at(pre + ppu_registers_bytes_0(v) + post, pre.len() as int + 2) == v.t,
        u8_at(pre + ppu_registers_bytes_0(v) + post, pre.len() as int + 4) == v.x,
        ppu_registers_bytes_0(v).len() == 5,
{
    reveal(ppu_registers_bytes_0);
    let whole = pre + ppu_registers_bytes_0(v) + post;
    lemma_number_at(pre, v.v as u64, 2, le_bytes(v.t as u64, 2) + seq![v.x] + post);
    assert(whole =~= (pre) + le_bytes(v.v as u64, 2) + (le_bytes(v.t as u64, 2) + seq![v.x] + post));
    assert((pre).len() == pre.len() + 0);
    lemma_number_at(pre + le_bytes(v.v as u64, 2), v.t as u64, 2, seq![v.x] + post);
    assert(whole =~= (pre + le_bytes(v.v as u64, 2)) + le_bytes(v.t as u64, 2) + (seq![v.x] + post));
    assert((pre + le_bytes(v.v as u64, 2)).len() == pre.len() + 2);
    assert(whole =~= (pre + le_bytes(v.v as u64, 2) + le_bytes(v.t as u64, 2)) + seq![v.x] + (post));
    assert((pre + le_bytes(v.v as u64, 2) + le_bytes(v.t as u64, 2)).len() == pre.len() + 4);
}

/// The fields of part 2 are read back from where its bytes stand.
proof fn lemma_ppu_registers_part_1(pre: Seq<u8>, v: PpuRegisters, post: Seq<u8>)
    ensures
        flag_at(pre + ppu_registers_bytes_1(v) + post, pre.len() as int) == v.w,
        flag_at(pre + ppu_registers_bytes_1(v) + post, pre.len() as int + 1) == v.vram_increment,
        flag_at(pre + ppu_registers_bytes_1(v) + post, pre.len() as int + 2) == v.is_greyscale,
        ppu_registers_bytes_1(v).len() == 3,
{
    reveal(ppu_registers_bytes_1);
    let whole = pre + ppu_registers_bytes_1(v) + post;
    assert(whole =~= (pre) + flag_bytes(v.w) + (flag_bytes(v.vram_increment) + flag_bytes(v.is_greyscale) + post));
    assert((pre).len() == pre.len() + 0);
    assert(whole =~= (pre + flag_bytes(v.w)) + flag_bytes(v.vram_increment) + (flag_bytes(v.is_greyscale) + post));
    assert((pre + flag_bytes(v.w)).len() == pre.len() + 1);
    assert(whole =~= (pre + flag_bytes(v.w) + flag_bytes(v.vram_increment)) + flag_bytes(v.is_greyscale) + (post));
    assert((pre + flag_bytes(v.w) + flag_bytes(v.vram_increment)).len() == pre.len() + 2);
}

/// The fields of part 3 are read back from where its bytes stand.
proof fn lemma_ppu_registers_part_2(pre: Seq<u8>, v: PpuRegisters, post: Seq<u8>)
    ensures
        flag_at(pre + ppu_registers_bytes_2(v) + post, pre.len() as int) == v.background_enabled,
        flag_at(pre + ppu_registers_bytes_2(v) + post, pre.len() as int + 1) == v.sprites_enabled,
        flag_at(pre + ppu_registers_bytes_2(v) + post, pre.len() as int + 2) == v.emphasize_red,
        ppu_registers_bytes_2(v).len() == 3,
{
    reveal(ppu_registers_bytes_2);
    let whole = pre + ppu_registers_bytes_2(v) + post;
    assert(whole =~= (pre) + flag_bytes(v.background_enabled) + (flag_bytes(v.sprites_enabled) + flag_bytes(v.emphasize_red) + post));
    assert((pre).len() == pre.len() + 0);
    assert(whole =~= (pre + flag_bytes(v.background_enabled)) + flag_bytes(v.sprites_enabled) + (flag_bytes(v.emphasize_red) + post));
    assert((pre + flag_bytes(v.background_enabled)).len() == pre.len() + 1);
    assert(whole =~= (pre + flag_bytes(v.background_enabled) + flag_bytes(v.sprites_enabled)) + flag_bytes(v.emphasize_red) + (post));
    assert((pre + flag_bytes(v.background_enabled) + flag_bytes(v.sprites_enabled)).len() == pre.len() + 2);
}

/// The fields of part 4 are read back from where its bytes stand.
proof fn lemma_ppu_registers_part_3(pre: Seq<u8>, v: PpuRegisters, post: Seq<u8>)
    ensures
        flag_at(pre + ppu_registers_bytes_3(v) + post, pre.len() as int) == v.emphasize_green,
        flag_at(pre + ppu_registers_bytes_3(v) + post, pre.len() as int + 1) == v.emphasize_blue,
        flag_at(pre + ppu_registers_bytes_3(v) + post, pre.len() as int + 2) == v.show_leftmost_background,
        ppu_registers_bytes_3(v).len() == 3,
{
    reveal(ppu_registers_bytes_3);
    let whole = pre + ppu_registers_bytes_3(v) + post;
    assert(whole =~= (pre) + flag_bytes(v.emphasize_green) + (flag_bytes(v.emphasize_blue) + flag_bytes(v.show_leftmost_background) + post));
    assert((pre).len() == pre.len() + 0);
    assert(whole =~= (pre + flag_bytes(v.emphasize_green)) + flag_bytes(v.emphasize_blue) + (flag_bytes(v.show_leftmost_background) + post));
    assert((pre + flag_bytes(v.emphasize_green)).len() == pre.len() + 1);
    assert(whole =~= (pre + flag_bytes(v.emphasize_green) + flag_bytes(v.emphasize_blue)) + flag_bytes(v.show_leftmost_background) + (post));
    assert((pre + flag_bytes(v.emphasize_green) + flag_bytes(v.emphasize_blue)).len() == pre.len() + 2);
}

/// The fields of part 5 are read back from where its bytes stand.
proof fn lemma_ppu_registers_part_4(pre: Seq<u8>, v: PpuRegisters, post: Seq<u8>)
    ensures
        flag_at(pre + ppu_registers_bytes_4(v) + post, pre.len() as int) == v.show_leftmost_sprite,
        ppu_registers_bytes_4(v).len() == 1,
{
    reveal(ppu_registers_bytes_4);
    let whole = pre + ppu_registers_bytes_4(v) + post;
    assert(whole =~= (pre) + flag_bytes(v.show_leftmost_sprite) + (post));
    assert((pre).len() == pre.len() + 0);
}

/// The state of the scroll registers is read back from where its bytes stand.
pub proof fn lemma_ppu_registers_at(pre: Seq<u8>, v: PpuRegisters, post: Seq<u8>)
    ensures
        ppu_registers_at(pre + ppu_registers_bytes(v) + post, pre.len() as int) == v,
        ppu_registers_bytes(v).len() == PPU_REGISTERS_SIZE,
{
    reveal(ppu_registers_bytes);
    let whole = pre + ppu_registers_bytes(v) + post;
    let p0 = ppu_registers_bytes_0(v);
    let p1 = ppu_registers_bytes_1(v);
    let p2 = ppu_registers_bytes_2(v);
    let p3 = ppu_registers_bytes_3(v);
    let p4 = ppu_registers_bytes_4(v);
    let before0 = pre;
    let before1 = before0 + p0;
    let before2 = before1 + p1;
    let before3 = before2 + p2;
    let before4 = before3 + p3;
    let after4 = post;
    let after3 = p4 + after4;
    let after2 = p3 + after3;
    let after1 = p2 + after2;
    let after0 = p1 + after1;
    assert(whole =~= before4 + p4 + after4);
    assert(before3 + p3 + after3 =~= before4 + p4 + after4);
    assert(before2 + p2 + after2 =~= before3 + p3 + after3);
    assert(before1 + p1 + after1 =~= before2 + p2 + after2);
    assert(before0 + p0 + after0 =~= before1 + p1 + after1);
    lemma_ppu_registers_part_0(before0, v, after0);
    assert(before0.len() == pre.len() + 0);
    lemma_ppu_registers_part_1(before1, v, after1);
    assert(before1.len() == pre.len() + 5);
    lemma_ppu_registers_part_2(before2, v, after2);
    assert(before2.len() == pre.len() + 8);
    lemma_ppu_registers_part_3(before3, v, after3);
    assert(before3.len() == pre.len() + 11);
    lemma_ppu_registers_part_4(before4, v, after4);
    assert(before4.len() == pre.len() + 14);
}

/// Reading behind the first `a` bytes is reading `a` bytes further on.
pub proof fn lemma_ppu_registers_shift(b: Seq<u8>, a: int, o: int)
    requires
        0 <= a,
        0 <= o,
        a + o + PPU_REGISTERS_SIZE <= b.len(),
    ensures
        ppu_registers_at(b.skip(a), o) == ppu_registers_at(b, a + o),
{
    assert(b.skip(a).subrange(o + 0, o + 2) =~= b.subrange(a + o + 0, a + o + 2));
    assert(b.skip(a).subrange(o + 2, o + 4) =~= b.subrange(a + o + 2, a + o + 4));
}

/// The number of bytes that stand for the picture processor.
pub const PPU_STATE_SIZE: usize = 48;

/// Part 1 of the bytes that stand for the picture processor.
#[verifier::opaque]
pub open spec fn ppu_state_bytes_0(v: PpuState) -> Seq<u8> {
    ppu_registers_bytes(v.registers)
        + flag_bytes(v.is_vblank_nmi)
        + flag_bytes(v.is_scanline_irq)
}

/// Part 2 of the bytes that stand for the picture processor.
#[verifier::opaque]
pub open spec fn ppu_state_bytes_1(v: PpuState) -> Seq<u8> {
    flag_bytes(v.sprite_pattern_table)
        + flag_bytes(v.background_pattern_table)
        + flag_bytes(v.sprite_overflow)
}

/// Part 3 of the bytes that stand for the picture processor.
#[verifier::opaque]
pub open spec fn ppu_state_bytes_2(v: PpuState) -> Seq<u8> {
    flag_bytes(v.sprite0_hit)
        + flag_bytes(v.sprite_size)
        + flag_bytes(v.frame_parity)
}

/// Part 4 of the bytes that stand for the picture processor.
#[verifier::opaque]
pub open spec fn ppu_state_bytes_3(v: PpuState) -> Seq<u8> {
    seq![v.open_bus]
        + flag_bytes(v.ppu_master_select)
        + flag_bytes(v.generate_vblank_nmi)
}

/// Part 5 of the bytes that stand for the picture processor.
#[verifier::opaque]
pub open spec fn ppu_state_bytes_4(v: PpuState) -> Seq<u8> {
    seq![v.ppudata_buffer]
        + seq![v.oam_ptr]
        + seq![v.clocks_until_nmi]
}

/// Part 6 of the bytes that stand for the picture processor.
#[verifier::opaque]
pub open spec fn ppu_state_bytes_5(v: PpuState) -> Seq<u8> {
    flag_bytes(v.nmi_occurred)
        + le_bytes(v.frame as u64, 4)
        + le_bytes(v.scanline as u64, 2)
}

/// Part 7 of the bytes that stand for the picture processor.
#[verifier::opaque]
pub open spec fn ppu_state_bytes_6(v: PpuState) -> Seq<u8> {
    le_bytes(v.cycle as u64, 2)
        + le_bytes(v.tile_pattern_low_shift as u64, 2)
        + le_bytes(v.tile_pattern_high_shift as u64, 2)
}

/// Part 8 of the bytes that stand for the picture processor.
#[verifier::opaque]
pub open spec fn ppu_state_bytes_7(v: PpuState) -> Seq<u8> {
    le_bytes(v.tile_palette_shift as u64, 2)
        + seq![v.tile_nametable]
        + seq![v.tile_attribute]
}

/// Part 9 of the bytes that stand for the picture processor.
#[verifier::opaque]
pub open spec fn ppu_state_bytes_8(v: PpuState) -> Seq<u8> {
    seq![v.tile_pattern_low]
        + seq![v.tile_pattern_high]
}

/// The bytes that stand for the picture processor, field by field.
#[verifier::opaque]
pub open spec fn ppu_state_bytes(v: PpuState) -> Seq<u8> {
    ppu_state_bytes_0(v)
        + ppu_state_bytes_1(v)
        + ppu_state_bytes_2(v)
        + ppu_state_bytes_3(v)
        + ppu_state_bytes_4(v)
        + ppu_state_bytes_5(v)
        + ppu_state_bytes_6(v)
        + ppu_state_bytes_7(v)
        + ppu_state_bytes_8(v)
}

/// The state of the picture processor that the bytes of `b` from offset `o` on stand for.
pub open spec fn ppu_state_at(b: Seq<u8>, o: int) -> PpuState {
    PpuState {
        registers: ppu_registers_at(b, o),
        is_vblank_nmi: flag_at(b, o + 15),
        is_scanline_irq: flag_at(b, o + 16),
        sprite_pattern_table: flag_at(b, o + 17),
        background_pattern_table: flag_at(b, o + 18),
        sprite_overflow: flag_at(b, o + 19),
        sprite0_hit: flag_at(b, o + 20),
        sprite_size: flag_at(b, o + 21),
        frame_parity: flag_at(b, o + 22),
        open_bus: u8_at(b, o + 23),
        ppu_master_select: flag_at(b, o + 24),
        generate_vblank_nmi: flag_at(b, o + 25),
        ppudata_buffer: u8_at(b, o + 26),
        oam_ptr: u8_at(b, o + 27),
        clocks_until_nmi: u8_at(b, o + 28),
        nmi_occurred: flag_at(b, o + 29),
        frame: u32_at(b, o + 30),
        scanline: u16_at(b, o + 34),
        cycle: u16_at(b, o + 36),
        tile_pattern_low_shift: u16_at(b, o + 38),
        tile_pattern_high_shift: u16_at(b, o + 40),
        tile_palette_shift: u16_at(b, o + 42),
        tile_nametable: u8_at(b, o + 44),
        tile_attribute: u8_at(b, o + 45),
        tile_pattern_low: u8_at(b, o + 46),
        tile_pattern_high: u8_at(b, o + 47),
    }
}

/// Appends part 1 of the bytes that stand for the picture processor.
fn put_ppu_state_part_0(out: &mut Vec<u8>, v: &PpuState)
    ensures
        final(out)@ == old(out)@ + ppu_state_bytes_0(*v),
{
    put_ppu_registers(out, &v.registers);
    put_flag(out, v.is_vblank_nmi);
    put_flag(out, v.is_scanline_irq);
    proof {
        reveal(ppu_state_bytes_0);
        assert(out@ =~= old(out)@ + ppu_state_bytes_0(*v));
    }
}

/// Appends part 2 of the bytes that stand for the picture processor.
fn put_ppu_state_part_1(out: &mut Vec<u8>, v: &PpuState)
    ensures
        final(out)@ == old(out)@ + ppu_state_bytes_1(*v),
{
    put_flag(out, v.sprite_pattern_table);
    put_flag(out, v.background_pattern_table);
    put_flag(out, v.sprite_overflow);
    proof {
        reveal(ppu_state_bytes_1);
        assert(out@ =~= old(out)@ + ppu_state_bytes_1(*v));
    }
}

/// Appends part 3 of the bytes that stand for the picture processor.
fn put_ppu_state_part_2(out: &mut Vec<u8>, v: &PpuState)
    ensures
        final(out)@ == old(out)@ + ppu_state_bytes_2(*v),
{
    put_flag(out, v.sprite0_hit);
    put_flag(out, v.sprite_size);
    put_flag(out, v.frame_parity);
    proof {
        reveal(ppu_state_bytes_2);
        assert(out@ =~= old(out)@ + ppu_state_bytes_2(*v));
    }
}

/// Appends part 4 of the bytes that stand for the picture processor.
fn put_ppu_state_part_3(out: &mut Vec<u8>, v: &PpuState)
    ensures
        final(out)@ == old(out)@ + ppu_state_bytes_3(*v),
{
    put_u8(out, v.open_bus);
    put_flag(out, v.ppu_master_select);
    put_flag(out, v.generate_vblank_nmi);
    proof {
        reveal(ppu_state_bytes_3);
        assert(out@ =~= old(out)@ + ppu_state_bytes_3(*v));
    }
}

/// Appends part 5 of the bytes that stand for the picture processor.
fn put_ppu_state_part_4(out: &mut Vec<u8>, v: &PpuState)
    ensures
        final(out)@ == old(out)@ + ppu_state_bytes_4(*v),
{
    put_u8(out, v.ppudata_buffer);
    put_u8(out, v.oam_ptr);
    put_u8(out, v.clocks_until_nmi);
    proof {
        reveal(ppu_state_bytes_4);
        assert(out@ =~= old(out)@ + ppu_state_bytes_4(*v));
    }
}

/// Appends part 6 of the bytes that stand for the picture processor.
fn put_ppu_state_part_5(out: &mut Vec<u8>, v: &PpuState)
    ensures
        final(out)@ == old(out)@ + ppu_state_bytes_5(*v),
{
    put_flag(out, v.nmi_occurred);
    put_u32(out, v.frame);
    put_u16(out, v.scanline);
    proof {
        reveal(ppu_state_bytes_5);
        assert(out@ =~= old(out)@ + ppu_state_bytes_5(*v));
    }
}

/// Appends part 7 of the bytes that stand for the picture processor.
fn put_ppu_state_part_6(out: &mut Vec<u8>, v: &PpuState)
    ensures
        final(out)@ == old(out)@ + ppu_state_bytes_6(*v),
{
    put_u16(out, v.cycle);
    put_u16(out, v.tile_pattern_low_shift);
    put_u16(out, v.tile_pattern_high_shift);
    proof {
        reveal(ppu_state_bytes_6);
        assert(out@ =~= old(out)@ + ppu_state_bytes_6(*v));
    }
}

/// Appends part 8 of the bytes that stand for the picture processor.
fn put_ppu_state_part_7(out: &mut Vec<u8>, v: &PpuState)
    ensures
        final(out)@ == old(out)@ + ppu_state_bytes_7(*v),
{
    put_u16(out, v.tile_palette_shift);
    put_u8(out, v.tile_nametable);
    put_u8(out, v.tile_attribute);
    proof {
        reveal(ppu_state_bytes_7);
        assert(out@ =~= old(out)@ + ppu_state_bytes_7(*v));
    }
}

/// Appends part 9 of the bytes that stand for the picture processor.
fn put_ppu_state_part_8(out: &mut Vec<u8>, v: &PpuState)
    ensures
        final(out)@ == old(out)@ + ppu_state_bytes_8(*v),
{
    put_u8(out, v.tile_pattern_low);
    put_u8(out, v.tile_pattern_high);
    proof {
        reveal(ppu_state_bytes_8);
        assert(out@ =~= old(out)@ + ppu_state_bytes_8(*v));
    }
}

/// Appends the bytes that stand for the picture processor.
pub fn put_ppu_state(out: &mut Vec<u8>, v: &PpuState)
    ensures
        final(out)@ == old(out)@ + ppu_state_bytes(*v),
{
    let ghost start = out@;
    proof {
        reveal(ppu_state_bytes);
    }
    put_ppu_state_part_0(out, v);
    proof {
        assert(out@ =~= start + (ppu_state_bytes_0(*v)));
    }
    put_ppu_state_part_1(out, v);
    proof {
        assert(out@ =~= start + (ppu_state_bytes_0(*v) + ppu_state_bytes_1(*v)));
    }
    put_ppu_state_part_2(out, v);
    proof {
        assert(out@ =~= start + (ppu_state_bytes_0(*v) + ppu_state_bytes_1(*v) + ppu_state_bytes_2(*v)));
    }
    put_ppu_state_part_3(out, v);
    proof {
        assert(out@ =~= start + (ppu_state_bytes_0(*v) + ppu_state_bytes_1(*v) + ppu_state_bytes_2(*v) + ppu_state_bytes_3(*v)));
    }
    put_ppu_state_part_4(out, v);
    proof {
        assert(out@ =~= start + (ppu_state_bytes_0(*v) + ppu_state_bytes_1(*v) + ppu_state_bytes_2(*v) + ppu_state_bytes_3(*v) + ppu_state_bytes_4(*v)));
    }
    put_ppu_state_part_5(out, v);
    proof {
        assert(out@ =~= start + (ppu_state_bytes_0(*v) + ppu_state_bytes_1(*v) + ppu_state_bytes_2(*v) + ppu_state_bytes_3(*v) + ppu_state_bytes_4(*v) + ppu_state_bytes_5(*v)));
    }
    put_ppu_state_part_6(out, v);
    proof {
        assert(out@ =~= start + (ppu_state_bytes_0(*v) + ppu_state_bytes_1(*v) + ppu_state_bytes_2(*v) + ppu_state_bytes_3(*v) + ppu_state_bytes_4(*v) + ppu_state_bytes_5(*v) + ppu_state_bytes_6(*v)));
    }
    put_ppu_state_part_7(out, v);
    proof {
        assert(out@ =~= start + (ppu_state_bytes_0(*v) + ppu_state_bytes_1(*v) + ppu_state_bytes_2(*v) + ppu_state_bytes_3(*v) + ppu_state_bytes_4(*v) + ppu_state_bytes_5(*v) + ppu_state_bytes_6(*v) + ppu_state_bytes_7(*v)));
    }
    put_ppu_state_part_8(out, v);
    proof {
        assert(out@ =~= start + (ppu_state_bytes_0(*v) + ppu_state_bytes_1(*v) + ppu_state_bytes_2(*v) + ppu_state_bytes_3(*v) + ppu_state_bytes_4(*v) + ppu_state_bytes_5(*v) + ppu_state_bytes_6(*v) + ppu_state_bytes_7(*v) + ppu_state_bytes_8(*v)));
    }
}

/// Reads the state of the picture processor that `input` holds at `at`.
pub fn get_ppu_state(input: &[u8], at: usize) -> (r: PpuState)
    requires
        at + PPU_STATE_SIZE <= input@.len(),
    ensures
        r == ppu_state_at(input@, at as int),
{
    let _ = input.len();
    PpuState {
        registers: get_ppu_registers(input, at),
        is_vblank_nmi: get_flag(input, at + 15),
        is_scanline_irq: get_flag(input, at + 16),
        sprite_pattern_table: get_flag(input, at + 17),
        background_pattern_table: get_flag(input, at + 18),
        sprite_overflow: get_flag(input, at + 19),
        sprite0_hit: get_flag(input, at + 20),
        sprite_size: get_flag(input, at + 21),
        frame_parity: get_flag(input, at + 22),
        open_bus: get_u8(input, at + 23),
        ppu_master_select: get_flag(input, at + 24),
        generate_vblank_nmi: get_flag(input, at + 25),
        ppudata_buffer: get_u8(input, at + 26),
        oam_ptr: get_u8(input, at + 27),
        clocks_until_nmi: get_u8(input, at + 28),
        nmi_occurred: get_flag(input, at + 29),
        frame: get_u32(input, at + 30),
        scanline: get_u16(input, at + 34),
        cycle: get_u16(input, at + 36),
        tile_pattern_low_shift: get_u16(input, at + 38),
        tile_pattern_high_shift: get_u16(input, at + 40),
        tile_palette_shift: get_u16(input, at + 42),
        tile_nametable: get_u8(input, at + 44),
        tile_attribute: get_u8(input, at + 45),
        tile_pattern_low: get_u8(input, at + 46),
        tile_pattern_high: get_u8(input, at + 47),
    }
}

/// The fields of part 1 are read back from where its bytes stand.
proof fn lemma_ppu_state_part_0(pre: Seq<u8>, v: PpuState, post: Seq<u8>)
    ensures
        ppu_registers_at(pre + ppu_state_bytes_0(v) + post, pre.len() as int) == v.registers,
        flag_at(pre + ppu_state_bytes_0(v) + post, pre.len() as int + 15) == v.is_vblank_nmi,
        flag_at(pre + ppu_state_bytes_0(v) + post, pre.len() as int + 16) == v.is_scanline_irq,
        ppu_state_bytes_0(v).len() == 17,
{
    reveal(ppu_state_bytes_0);
    let whole = pre + ppu_state_bytes_0(v) + post;
    lemma_ppu_registers_at(pre, v.registers, flag_bytes(v.is_vblank_nmi) + flag_bytes(v.is_scanline_irq) + post);
    assert(whole =~= (pre) + ppu_registers_bytes(v.registers) + (flag_bytes(v.is_vblank_nmi) + flag_bytes(v.is_scanline_irq) + post));
    assert((pre).len() == pre.len() + 0);
    assert(whole =~= (pre + ppu_registers_bytes(v.registers)) + flag_bytes(v.is_vblank_nmi) + (flag_bytes(v.is_scanline_irq) + post));
    assert((pre + ppu_registers_bytes(v.registers)).len() == pre.len() + 15);
    assert(whole =~= (pre + ppu_registers_bytes(v.registers) + flag_bytes(v.is_vblank_nmi)) + flag_bytes(v.is_scanline_irq) + (post));
    assert((pre + ppu_registers_bytes(v.registers) + flag_bytes(v.is_vblank_nmi)).len() == pre.len() + 16);
}

/// The fields of part 2 are read back from where its bytes stand.
proof fn lemma_ppu_state_part_1(pre: Seq<u8>, v: PpuState, post: Seq<u8>)
    ensures
        flag_at(pre + ppu_state_bytes_1(v) + post, pre.len() as int) == v.sprite_pattern_table,
        flag_at(pre + ppu_state_bytes_1(v) + post, pre.len() as int + 1) == v.background_pattern_table,
        flag_at(pre + ppu_state_bytes_1(v) + post, pre.len() as int + 2) == v.sprite_overflow,
        ppu_state_bytes_1(v).len() == 3,
{
    reveal(ppu_state_bytes_1);
    let whole = pre + ppu_state_bytes_1(v) + post;
    assert(whole =~= (pre) + flag_bytes(v.sprite_pattern_table) + (flag_bytes(v.background_pattern_table) + flag_bytes(v.sprite_overflow) + post));
    assert((pre).len() == pre.len() + 0);
    assert(whole =~= (pre + flag_bytes(v.sprite_pattern_table)) + flag_bytes(v.background_pattern_table) + (flag_bytes(v.sprite_overflow) + post));
    assert((pre + flag_bytes(v.sprite_pattern_table)).len() == pre.len() + 1);
    assert(whole =~= (pre + flag_bytes(v.sprite_pattern_table) + flag_bytes(v.background_pattern_table)) + flag_bytes(v.sprite_overflow) + (post));
    assert((pre + flag_bytes(v.sprite_pattern_table) + flag_bytes(v.background_pattern_table)).len() == pre.len() + 2);
}

/// The fields of part 3 are read back from where its bytes stand.
proof fn lemma_ppu_state_part_2(pre: Seq<u8>, v: PpuState, post: Seq<u8>)
    ensures
        flag_at(pre + ppu_state_bytes_2(v) + post, pre.len() as int) == v.sprite0_hit,
        flag_at(pre + ppu_state_bytes_2(v) + post, pre.len() as int + 1) == v.sprite_size,
        flag_at(pre + ppu_state_bytes_2(v) + post, pre.len() as int + 2) == v.frame_parity,
        ppu_state_bytes_2(v).len() == 3,
{
    reveal(ppu_state_bytes_2);
    let whole = pre + ppu_state_bytes_2(v) + post;
    assert(whole =~= (pre) + flag_bytes(v.sprite0_hit) + (flag_bytes(v.sprite_size) + flag_bytes(v.frame_parity) + post));
    assert((pre).len() == pre.len() + 0);
    assert(whole =~= (pre + flag_bytes(v.sprite0_hit)) + flag_bytes(v.sprite_size) + (flag_bytes(v.frame_parity) + post));
    assert((pre + flag_bytes(v.sprite0_hit)).len() == pre.len() + 1);
    assert(whole =~= (pre + flag_bytes(v.sprite0_hit) + flag_bytes(v.sprite_size)) + flag_bytes(v.frame_parity) + (post));
    assert((pre + flag_bytes(v.sprite0_hit) + flag_bytes(v.sprite_size)).len() == pre.len() + 2);
}

/// The fields of part 4 are read back from where its bytes stand.
proof fn lemma_ppu_state_part_3(pre: Seq<u8>, v: PpuState, post: Seq<u8>)
    ensures
        u8_at(pre + ppu_state_bytes_3(v) + post, pre.len() as int) == v.open_bus,
        flag_at(pre + ppu_state_bytes_3(v) + post, pre.len() as int + 1) == v.ppu_master_select,
        flag_at(pre + ppu_state_bytes_3(v) + post, pre.len() as int + 2) == v.generate_vblank_nmi,
        ppu_state_bytes_3(v).len() == 3,
{
    reveal(ppu_state_bytes_3);
    let whole = pre + ppu_state_bytes_3(v) + post;
    assert(whole =~= (pre) + seq![v.open_bus] + (flag_bytes(v.ppu_master_select) + flag_bytes(v.generate_vblank_nmi) + post));
    assert((pre).len() == pre.len() + 0);
    assert(whole =~= (pre + seq![v.open_bus]) + flag_bytes(v.ppu_master_select) + (flag_bytes(v.generate_vblank_nmi) + post));
    assert((pre + seq![v.open_bus]).len() == pre.len() + 1);
    assert(whole =~= (pre + seq![v.open_bus] + flag_bytes(v.ppu_master_select)) + flag_bytes(v.generate_vblank_nmi) + (post));
    assert((pre + seq![v.open_bus] + flag_bytes(v.ppu_master_select)).len() == pre.len() + 2);
}

/// The fields of part 5 are read back from where its bytes stand.
proof fn lemma_ppu_state_part_4(pre: Seq<u8>, v: PpuState, post: Seq<u8>)
    ensures
        u8_at(pre + ppu_state_bytes_4(v) + post, pre.len() as int) == v.ppudata_buffer,
        u8_at(pre + ppu_state_bytes_4(v) + post, pre.len() as int + 1) == v.oam_ptr,
        u8_at(pre + ppu_state_bytes_4(v) + post, pre.len() as int + 2) == v.clocks_until_nmi,
        ppu_state_bytes_4(v).len() == 3,
{
    reveal(ppu_state_bytes_4);
    let whole = pre + ppu_state_bytes_4(v) + post;
    assert(whole =~= (pre) + seq![v.ppudata_buffer] + (seq![v.oam_ptr] + seq![v.clocks_until_nmi] + post));
    assert((pre).len() == pre.len() + 0);
    assert(whole =~= (pre + seq![v.ppudata_buffer]) + seq![v.oam_ptr] + (seq![v.clocks_until_nmi] + post));
    assert((pre + seq![v.ppudata_buffer]).len() == pre.len() + 1);
    assert(whole =~= (pre + seq![v.ppudata_buffer] + seq![v.oam_ptr]) + seq![v.clocks_until_nmi] + (post));
    assert((pre + seq![v.ppudata_buffer] + seq![v.oam_ptr]).len() == pre.len() + 2);
}

/// The fields of part 6 are read back from where its bytes stand.
proof fn lemma_ppu_state_part_5(pre: Seq<u8>, v: PpuState, post: Seq<u8>)
    ensures
        flag_at(pre + ppu_state_bytes_5(v) + post, pre.len() as int) == v.nmi_occurred,
        u32_at(pre + ppu_state_bytes_5(v) + post, pre.len() as int + 1) == v.frame,
        u16_at(pre + ppu_state_bytes_5(v) + post, pre.len() as int + 5) == v.scanline,
        ppu_state_bytes_5(v).len() == 7,
{
    reveal(ppu_state_bytes_5);
    let whole = pre + ppu_state_bytes_5(v) + post;
    assert(whole =~= (pre) + flag_bytes(v.nmi_occurred) + (le_bytes(v.frame as u64, 4) + le_bytes(v.scanline as u64, 2) + post));
    assert((pre).len() == pre.len() + 0);
    lemma_number_at(pre + flag_bytes(v.nmi_occurred), v.frame as u64, 4, le_bytes(v.scanline as u64, 2) + post);
    assert(whole =~= (pre + flag_bytes(v.nmi_occurred)) + le_bytes(v.frame as u64, 4) + (le_bytes(v.scanline as u64, 2) + post));
    assert((pre + flag_bytes(v.nmi_occurred)).len() == pre.len() + 1);
    lemma_number_at(pre + flag_bytes(v.nmi_occurred) + le_bytes(v.frame as u64, 4), v.scanline as u64, 2, post);
    assert(whole =~= (pre + flag_bytes(v.nmi_occurred) + le_bytes(v.frame as u64, 4)) + le_bytes(v.scanline as u64, 2) + (post));
    assert((pre + flag_bytes(v.nmi_occurred) + le_bytes(v.frame as u64, 4)).len() == pre.len() + 5);
}

/// The fields of part 7 are read back from where its bytes stand.
proof fn lemma_ppu_state_part_6(pre: Seq<u8>, v: PpuState, post: Seq<u8>)
    ensures
        u16_at(pre + ppu_state_bytes_6(v) + post, pre.len() as int) == v.cycle,
        u16_at(pre + ppu_state_bytes_6(v) + post, pre.len() as int + 2) == v.tile_pattern_low_shift,
        u16_at(pre + ppu_state_bytes_6(v) + post, pre.len() as int + 4) == v.tile_pattern_high_shift,
        ppu_state_bytes_6(v).len() == 6,
{
    reveal(ppu_state_bytes_6);
    let whole = pre + ppu_state_bytes_6(v) + post;
    lemma_number_at(pre, v.cycle as u64, 2, le_bytes(v.tile_pattern_low_shift as u64, 2) + le_bytes(v.tile_pattern_high_shift as u64, 2) + post);
    assert(whole =~= (pre) + le_bytes(v.cycle as u64, 2) + (le_bytes(v.tile_pattern_low_shift as u64, 2) + le_bytes(v.tile_pattern_high_shift as u64, 2) + post));
    assert((pre).len() == pre.len() + 0);
    lemma_number_at(pre + le_bytes(v.cycle as u64, 2), v.tile_pattern_low_shift as u64, 2, le_bytes(v.tile_pattern_high_shift as u64, 2) + post);
    assert(whole =~= (pre + le_bytes(v.cycle as u64, 2)) + le_bytes(v.tile_pattern_low_shift as u64, 2) + (le_bytes(v.tile_pattern_high_shift as u64, 2) + post));
    assert((pre + le_bytes(v.cycle as u64, 2)).len() == pre.len() + 2);
    lemma_number_at(pre + le_bytes(v.cycle as u64, 2) + le_bytes(v.tile_pattern_low_shift as u64, 2), v.tile_pattern_high_shift as u64, 2, post);
    assert(whole =~= (pre + le_bytes(v.cycle as u64, 2) + le_bytes(v.tile_pattern_low_shift as u64, 2)) + le_bytes(v.tile_pattern_high_shift as u64, 2) + (post));
    assert((pre + le_bytes(v.cycle as u64, 2) + le_bytes(v.tile_pattern_low_shift as u64, 2)).len() == pre.len() + 4);
}

/// The fields of part 8 are read back from where its bytes stand.
proof fn lemma_ppu_state_part_7(pre: Seq<u8>, v: PpuState, post: Seq<u8>)
    ensures
        u16_at(pre + ppu_state_bytes_7(v) + post, pre.len() as int) == v.tile_palette_shift,
        u8_at(pre + ppu_state_bytes_7(v) + post, pre.len() as int + 2) == v.tile_nametable,
        u8_at(pre + ppu_state_bytes_7(v) + post, pre.len() as int + 3) == v.tile_attribute,
        ppu_state_bytes_7(v).len() == 4,
{
    reveal(ppu_state_bytes_7);
    let whole = pre + ppu_state_bytes_7(v) + post;
    lemma_number_at(pre, v.tile_palette_shift as u64, 2, seq![v.tile_nametable] + seq![v.tile_attribute] + post);
    assert(whole =~= (pre) + le_bytes(v.tile_palette_shift as u64, 2) + (seq![v.tile_nametable] + seq![v.tile_attribute] + post));
    assert((pre).len() == pre.len() + 0);
    assert(whole =~= (pre + le_bytes(v.tile_palette_shift as u64, 2)) + seq![v.tile_nametable] + (seq![v.tile_attribute] + post));
    assert((pre + le_bytes(v.tile_palette_shift as u64, 2)).len() == pre.len() + 2);
    assert(whole =~= (pre + le_bytes(v.tile_palette_shift as u64, 2) + seq![v.tile_nametable]) + seq![v.tile_attribute] + (post));
    assert((pre + le_bytes(v.tile_palette_shift as u64, 2) + seq![v.tile_nametable]).len() == pre.len() + 3);
}

/// The fields of part 9 are read back from where its bytes stand.
proof fn lemma_ppu_state_part_8(pre: Seq<u8>, v: PpuState, post: Seq<u8>)
    ensures
        u8_at(pre + ppu_state_bytes_8(v) + post, pre.len() as int) == v.tile_pattern_low,
        u8_at(pre + ppu_state_bytes_8(v) + post, pre.len() as int + 1) == v.tile_pattern_high,
        ppu_state_bytes_8(v).len() == 2,
{
    reveal(ppu_state_bytes_8);
    let whole = pre + ppu_state_bytes_8(v) + post;
    assert(whole =~= (pre) + seq![v.tile_pattern_low] + (seq![v.tile_pattern_high] + post));
    assert((pre).len() == pre.len() + 0);
    assert(whole =~= (pre + seq![v.tile_pattern_low]) + seq![v.tile_pattern_high] + (post));
    assert((pre + seq![v.tile_pattern_low]).len() == pre.len() + 1);
}

/// The state of the picture processor is read back from where its bytes stand.
pub proof fn lemma_ppu_state_at(pre: Seq<u8>, v: PpuState, post: Seq<u8>)
    ensures
        ppu_state_at(pre + ppu_state_bytes(v) + post, pre.len() as int) == v,
        ppu_state_bytes(v).len() == PPU_STATE_SIZE,
{
    reveal(ppu_state_bytes);
    let whole = pre + ppu_state_bytes(v) + post;
    let p0 = ppu_state_bytes_0(v);
    let p1 = ppu_state_bytes_1(v);
    let p2 = ppu_state_bytes_2(v);
    let p3 = ppu_state_bytes_3(v);
    let p4 = ppu_state_bytes_4(v);
    let p5 = ppu_state_bytes_5(v);
    let p6 = ppu_state_bytes_6(v);
    let p7 = ppu_state_bytes_7(v);
    let p8 = ppu_state_bytes_8(v);
    let before0 = pre;
    let before1 = before0 + p0;
    let before2 = before1 + p1;
    let before3 = before2 + p2;
    let before4 = before3 + p3;
    let before5 = before4 + p4;
    let before6 = before5 + p5;
    let before7 = before6 + p6;
    let before8 = before7 + p7;
    let after8 = post;
    let after7 = p8 + after8;
    let after6 = p7 + after7;
    let after5 = p6 + after6;
    let after4 = p5 + after5;
    let after3 = p4 + after4;
    let after2 = p3 + after3;
    let after1 = p2 + after2;
    let after0 = p1 + after1;
    assert(whole =~= before8 + p8 + after8);
    assert(before7 + p7 + after7 =~= before8 + p8 + after8);
    assert(before6 + p6 + after6 =~= before7 + p7 + after7);
    assert(before5 + p5 + after5 =~= before6 + p6 + after6);
    assert(before4 + p4 + after4 =~= before5 + p5 + after5);
    assert(before3 + p3 + after3 =~= before4 + p4 + after4);
    assert(before2 + p2 + after2 =~= before3 + p3 + after3);
    assert(before1 + p1 + after1 =~= before2 + p2 + after2);
    assert(before0 + p0 + after0 =~= before1 + p1 + after1);
    lemma_ppu_state_part_0(before0, v, after0);
    assert(before0.len() == pre.len() + 0);
    lemma_ppu_state_part_1(before1, v, after1);
    assert(before1.len() == pre.len() + 17);
    lemma_ppu_state_part_2(before2, v, after2);
    assert(before2.len() == pre.len() + 20);
    lemma_ppu_state_part_3(before3, v, after3);
    assert(before3.len() == pre.len() + 23);
    lemma_ppu_state_part_4(before4, v, after4);
    assert(before4.len() == pre.len() + 26);
    lemma_ppu_state_part_5(before5, v, after5);
    assert(before5.len() == pre.len() + 29);
    lemma_ppu_state_part_6(before6, v, after6);
    assert(before6.len() == pre.len() + 36);
    lemma_ppu_state_part_7(before7, v, after7);
    assert(before7.len() == pre.len() + 42);
    lemma_ppu_state_part_8(before8, v, after8);
    assert(before8.len() == pre.len() + 46);
}

/// Reading behind the first `a` bytes is reading `a` bytes further on.
pub proof fn lemma_ppu_state_shift(b: Seq<u8>, a: int, o: int)
    requires
        0 <= a,
        0 <= o,
        a + o + PPU_STATE_SIZE <= b.len(),
    ensures
        ppu_state_at(b.skip(a), o) == ppu_state_at(b, a + o),
{
    lemma_ppu_registers_shift(b, a, o + 0);
    assert(b.skip(a).subrange(o + 30, o + 34) =~= b.subrange(a + o + 30, a + o + 34));
    assert(b.skip(a).subrange(o + 34, o + 36) =~= b.subrange(a + o + 34, a + o + 36));
    assert(b.skip(a).subrange(o + 36, o + 38) =~= b.subrange(a + o + 36, a + o + 38));
    assert(b.skip(a).subrange(o + 38, o + 40) =~= b.subrange(a + o + 38, a + o + 40));
    assert(b.skip(a).subrange(o + 40, o + 42) =~= b.subrange(a + o + 40, a + o + 42));
    assert(b.skip(a).subrange(o + 42, o + 44) =~= b.subrange(a + o + 42, a + o + 44));
}

impl View for PpuState {
    type V = PpuState;

    open spec fn view(&self) -> PpuState {
        *self
    }
}

impl Savable for PpuState {
    open spec fn encoding(v: PpuState) -> Seq<u8> {
        ppu_state_bytes(v)
    }

    open spec fn decoding(shape: PpuState, bytes: Seq<u8>) -> Result<(PpuState, nat), LoadError> {
        if bytes.len() >= PPU_STATE_SIZE {
            Ok((ppu_state_at(bytes, 0), PPU_STATE_SIZE as nat))
        } else {
            Err(LoadError::UnexpectedEnd)
        }
    }

    fn save(&self, out: &mut Vec<u8>) {
        put_ppu_state(out, self);
    }

    fn load(&mut self, input: &[u8], at: usize) -> (r: Result<usize, LoadError>) {
        if input.len() - at < PPU_STATE_SIZE {
            return Err(LoadError::UnexpectedEnd);
        }
        proof {
            lemma_ppu_state_shift(input@, at as int, 0);
        }
        *self = get_ppu_state(input, at);
        Ok(at + PPU_STATE_SIZE)
    }
}

/// The number of bytes that stand for a sprite slot.
pub const SPRITE_SLOT_SIZE: usize = 6;

/// The bytes that stand for a sprite slot, field by field.
pub open spec fn sprite_slot_bytes(v: SpriteSlot) -> Seq<u8> {
    le_bytes(v.pattern as u64, 2)
        + seq![v.palette]
        + seq![v.x]
        + flag_bytes(v.is_front)
        + seq![v.index]
}

/// The state of a sprite slot that the bytes of `b` from offset `o` on stand for.
pub open spec fn sprite_slot_at(b: Seq<u8>, o: int) -> SpriteSlot {
    SpriteSlot {
        pattern: u16_at(b, o),
        palette: u8_at(b, o + 2),
        x: u8_at(b, o + 3),
        is_front: flag_at(b, o + 4),
        index: u8_at(b, o + 5),
    }
}

/// Appends the bytes that stand for a sprite slot.
pub fn put_sprite_slot(out: &mut Vec<u8>, v: &SpriteSlot)
    ensures
        final(out)@ == old(out)@ + sprite_slot_bytes(*v),
{
    put_u16(out, v.pattern);
    put_u8(out, v.palette);
    put_u8(out, v.x);
    put_flag(out, v.is_front);
    put_u8(out, v.index);
    proof {
        assert(out@ =~= old(out)@ + sprite_slot_bytes(*v));
    }
}

/// Reads the state of a sprite slot that `input` holds at `at`.
pub fn get_sprite_slot(input: &[u8], at: usize) -> (r: SpriteSlot)
    requires
        at + SPRITE_SLOT_SIZE <= input@.len(),
    ensures
        r == sprite_slot_at(input@, at as int),
{
    let _ = input.len();
    SpriteSlot {
        pattern: get_u16(input, at),
        palette: get_u8(input, at + 2),
        x: get_u8(input, at + 3),
        is_front: get_flag(input, at + 4),
        index: get_u8(input, at + 5),
    }
}

/// The state of a sprite slot is read back from where its bytes stand.
pub proof fn lemma_sprite_slot_at(pre: Seq<u8>, v: SpriteSlot, post: Seq<u8>)
    ensures
        sprite_slot_at(pre + sprite_slot_bytes(v) + post, pre.len() as int) == v,
        sprite_slot_bytes(v).len() == SPRITE_SLOT_SIZE,
{
    let whole = pre + sprite_slot_bytes(v) + post;
    lemma_number_at(pre, v.pattern as u64, 2, seq![v.palette] + seq![v.x] + flag_bytes(v.is_front) + seq![v.index] + post);
    assert(whole =~= (pre) + le_bytes(v.pattern as u64, 2) + (seq![v.palette] + seq![v.x] + flag_bytes(v.is_front) + seq![v.index] + post));
    assert((pre).len() == pre.len() + 0);
    assert(whole =~= (pre + le_bytes(v.pattern as u64, 2)) + seq![v.palette] + (seq![v.x] + flag_bytes(v.is_front) + seq![v.index] + post));
    assert((pre + le_bytes(v.pattern as u64, 2)).len() == pre.len() + 2);
    assert(whole =~= (pre + le_bytes(v.pattern as u64, 2) + seq![v.palette]) + seq![v.x] + (flag_bytes(v.is_front) + seq![v.index] + post));
    assert((pre + le_bytes(v.pattern as u64, 2) + seq![v.palette]).len() == pre.len() + 3);
    assert(whole =~= (pre + le_bytes(v.pattern as u64, 2) + seq![v.palette] + seq![v.x]) + flag_bytes(v.is_front) + (seq![v.index] + post));
    assert((pre + le_bytes(v.pattern as u64, 2) + seq![v.palette] + seq![v.x]).len() == pre.len() + 4);
    assert(whole =~= (pre + le_bytes(v.pattern as u64, 2) + seq![v.palette] + seq![v.x] + flag_bytes(v.is_front)) + seq![v.index] + (post));
    assert((pre + le_bytes(v.pattern as u64, 2) + seq![v.palette] + seq![v.x] + flag_bytes(v.is_front)).len() == pre.len() + 5);
}

/// Reading behind the first `a` bytes is reading `a` bytes further on.
pub proof fn lemma_sprite_slot_shift(b: Seq<u8>, a: int, o: int)
    requires
        0 <= a,
        0 <= o,
        a + o + SPRITE_SLOT_SIZE <= b.len(),
    ensures
        sprite_slot_at(b.skip(a), o) == sprite_slot_at(b, a + o),
{
    assert(b.skip(a).subrange(o + 0, o + 2) =~= b.subrange(a + o + 0, a + o + 2));
}

impl View for SpriteSlot {
    type V = SpriteSlot;

    open spec fn view(&self) -> SpriteSlot {
        *self
    }
}

impl Savable for SpriteSlot {
    open spec fn encoding(v: SpriteSlot) -> Seq<u8> {
        sprite_slot_bytes(v)
    }

    open spec fn decoding(shape: SpriteSlot, bytes: Seq<u8>) -> Result<(SpriteSlot, nat), LoadError> {
        if bytes.len() >= SPRITE_SLOT_SIZE {
            Ok((sprite_slot_at(bytes, 0), SPRITE_SLOT_SIZE as nat))
        } else {
            Err(LoadError::UnexpectedEnd)
        }
    }

    fn save(&self, out: &mut Vec<u8>) {
        put_sprite_slot(out, self);
    }

    fn load(&mut self, input: &[u8], at: usize) -> (r: Result<usize, LoadError>) {
        if input.len() - at < SPRITE_SLOT_SIZE {
            return Err(LoadError::UnexpectedEnd);
        }
        proof {
            lemma_sprite_slot_shift(input@, at as int, 0);
        }
        *self = get_sprite_slot(input, at);
        Ok(at + SPRITE_SLOT_SIZE)
    }
}

} // verus!
