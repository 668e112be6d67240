//! The controller port: a strobe latch and a serial shift register.

use crate::mapper::{AddressSpace, BusError};
use vstd::prelude::*;

verus! {

/// A controller. `buttons` is the live mask of the eight buttons (A, B,
/// Select, Start, Up, Down, Left, Right from bit 0 up), `buttons_register`
/// the shift register that reads drain, `strobe_active` the strobe latch.
#[derive(Copy, Clone, Debug, PartialEq, Eq, Structural)]
pub struct Joystick {
    pub buttons: u8,
    pub buttons_register: u8,
    pub strobe_active: bool,
}

impl View for Joystick {
    type V = Joystick;

    open spec fn view(&self) -> Joystick {
        *self
    }
}

/// The controller with its shift register reloaded from the live mask
/// while the strobe is on.
pub open spec fn strobed(j: Joystick) -> Joystick {
    if j.strobe_active {
        Joystick { buttons_register: j.buttons, ..j }
    } else {
        j
    }
}

/// The controller after a read: the shift register, reloaded first while
/// the strobe is on, has moved right by one.
pub open spec fn joystick_after_read(j: Joystick) -> Joystick {
    Joystick { buttons_register: strobed(j).buttons_register / 2, ..strobed(j) }
}

/// The controller after `v` was written: bit 0 of `v` becomes the strobe.
/// While the strobe is on, and at the moment it falls, the shift register
/// takes the live mask.
pub open spec fn joystick_after_write(j: Joystick, v: u8) -> Joystick {
    Joystick {
        strobe_active: v % 2 == 1,
        buttons_register: if j.strobe_active || v % 2 == 1 {
            j.buttons
        } else {
            j.buttons_register
        },
        ..j
    }
}

/// The bits that `n` reads return after the strobe fell with the mask
/// `mask` in the shift register: bit `i` of `mask` for the read number `i`.
pub open spec fn serial_bit(mask: u8, i: nat) -> u8
    decreases i,
{
    if i == 0 {
        mask % 2
    } else {
        serial_bit(mask / 2, (i - 1) as nat)
    }
}

impl Joystick {
    /// A controller with no button held and the strobe off.
    pub fn new() -> (r: Joystick)
        ensures
            r == (Joystick { buttons: 0, buttons_register: 0, strobe_active: false }),
    {
        Joystick { buttons: 0, buttons_register: 0, strobe_active: false }
    }

    /// Sets the live button mask.
    pub fn set_buttons(&mut self, button_mask: u8)
        ensures
            *final(self) == (Joystick { buttons: button_mask, ..*old(self) }),
    {
        self.buttons = button_mask;
    }

    /// Returns bit 0 of the shift register and moves the register right by one.
    pub fn get_next_button(&mut self) -> (r: u8)
        ensures
            r == old(self).buttons_register % 2,
            *final(self) == (Joystick {
                buttons_register: old(self).buttons_register / 2,
                ..*old(self)
            }),
    {
        let byte = self.buttons_register % 2;
        self.buttons_register = self.buttons_register / 2;
        byte
    }

    /// Reloads the shift register from the live mask while the strobe is on.
    pub fn reset_from_strobe(&mut self)
        ensures
            *final(self) == strobed(*old(self)),
    {
        if self.strobe_active {
            self.buttons_register = self.buttons;
        }
    }
}

impl AddressSpace for Joystick {
    open spec fn maps(v: Joystick, ptr: u16) -> bool {
        true
    }

    open spec fn value_at(v: Joystick, ptr: u16) -> u8 {
        strobed(v).buttons_register % 2
    }

    open spec fn after_peek(v: Joystick, ptr: u16) -> Joystick {
        joystick_after_read(v)
    }

    open spec fn after_poke(v: Joystick, ptr: u16, value: u8) -> Joystick {
        joystick_after_write(v, value)
    }

    fn peek(&mut self, ptr: u16) -> (r: Result<u8, BusError>) {
        self.reset_from_strobe();
        Ok(self.get_next_button())
    }

    fn poke(&mut self, ptr: u16, v: u8) -> (r: Result<(), BusError>) {
        self.reset_from_strobe();
        self.strobe_active = v % 2 == 1;
        self.reset_from_strobe();
        Ok(())
    }
}

/// The controller after `n` reads.
pub open spec fn after_reads(j: Joystick, n: nat) -> Joystick
    decreases n,
{
    if n == 0 {
        j
    } else {
        after_reads(joystick_after_read(j), (n - 1) as nat)
    }
}

/// With the strobe off, read number `i` returns bit `i` of what the shift
/// register held, lowest bit first, and from the ninth read on zero.
pub proof fn lemma_serial_read(j: Joystick, i: nat)
    requires
        !j.strobe_active,
    ensures
        <Joystick as AddressSpace>::value_at(after_reads(j, i), 0) == serial_bit(
            j.buttons_register,
            i,
        ),
        !after_reads(j, i).strobe_active,
        i >= 8 ==> serial_bit(j.buttons_register, i) == 0,
    decreases i,
{
    if i > 0 {
        lemma_serial_read(joystick_after_read(j), (i - 1) as nat);
    }
    if i >= 8 {
        vstd::arithmetic::power2::lemma2_to64();
        lemma_serial_zero(j.buttons_register, i, 8);
    }
}

/// A register below `2^k` reads as zero from read number `k` on.
proof fn lemma_serial_zero(mask: u8, i: nat, k: nat)
    requires
        mask < vstd::arithmetic::power2::pow2(k),
        i >= k,
    ensures
        serial_bit(mask, i) == 0,
    decreases i,
{
    vstd::arithmetic::power2::lemma2_to64();
    if i == 0 {
    } else if k == 0 {
        lemma_serial_zero(mask / 2, (i - 1) as nat, 0);
    } else {
        vstd::arithmetic::power2::lemma_pow2_unfold(k);
        lemma_serial_zero(mask / 2, (i - 1) as nat, (k - 1) as nat);
    }
}

/// While the strobe is on, every read returns the A button of the live mask.
pub proof fn lemma_strobed_read(j: Joystick)
    requires
        j.strobe_active,
    ensures
        <Joystick as AddressSpace>::value_at(j, 0) == j.buttons % 2,
        <Joystick as AddressSpace>::value_at(joystick_after_read(j), 0) == j.buttons % 2,
{
}

/// When the strobe falls, the shift register holds the live mask, and the
/// eight reads that follow return its bits, lowest first.
pub proof fn lemma_strobe_latches(j: Joystick, v: u8, i: nat)
    requires
        j.strobe_active,
        v % 2 == 0,
    ensures
        joystick_after_write(j, v).buttons_register == j.buttons,
        !joystick_after_write(j, v).strobe_active,
        <Joystick as AddressSpace>::value_at(after_reads(joystick_after_write(j, v), i), 0)
            == serial_bit(j.buttons, i),
{
    lemma_serial_read(joystick_after_write(j, v), i);
}

} // verus!
