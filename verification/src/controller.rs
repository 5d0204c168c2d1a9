//! The bus controller's software-visible register state, and the three
//! primitives the transaction engine drives it with: `configure`, `arm` and
//! `disarm_reset`.
//!
//! The model keeps the bytes the driver writes: the address register, the
//! control register and the data register. The status register is read-only
//! to software and reaches the engine as a parameter, one snapshot per bus
//! edge. The surrounding program mirrors every write recorded here into the
//! memory-mapped hardware registers.

use vstd::prelude::*;

verus! {

/// Control register value that arms the peripheral for the next bus edge:
/// acknowledge enable, peripheral enable, interrupt-pending clear and
/// interrupt enable set, start and stop bits clear.
pub const CTRL_ARMED: u8 = 0xC5;

/// Control register value that stays on the bus but acknowledges nothing
/// further: as `CTRL_ARMED` with acknowledge enable cleared.
pub const CTRL_ACTIVE_NACK: u8 = 0x85;

/// Control register value that clears the pending interrupt and drops
/// acknowledge enable: the device stops taking part in the transfer.
pub const CTRL_DISCONNECT: u8 = 0x80;

/// The control register's reset value: fully disarmed and inert.
pub const CTRL_RESET: u8 = 0x00;

/// The register block of the two-wire peripheral, as software last wrote it:
/// address register (`twar`), control register (`twcr`) and data register
/// (`twdr`). Exactly one such value stands for one physical register block.
#[derive(Clone, Copy, Debug, PartialEq, Eq, Structural)]
pub struct Controller {
    /// Address register: the 7-bit slave address in the upper bits, the
    /// general-call acceptance bit lowest.
    pub twar: u8,
    /// Control register: commands the next bus action.
    pub twcr: u8,
    /// Data register: the byte to transmit on the next read edge.
    pub twdr: u8,
}

/// The register writes one engine step, or one whole transaction run, asks
/// for. `None` leaves the register as it stood.
pub ghost struct RegisterWrites {
    pub twcr: Option<u8>,
    pub twdr: Option<u8>,
}

/// No register is written.
pub open spec fn no_writes() -> RegisterWrites {
    RegisterWrites { twcr: None, twdr: None }
}

/// A write of the control register alone.
pub open spec fn control_write(twcr: u8) -> RegisterWrites {
    RegisterWrites { twcr: Some(twcr), twdr: None }
}

/// The controller after the given writes are applied.
pub open spec fn spec_apply(ctl: Controller, writes: RegisterWrites) -> Controller {
    Controller {
        twar: ctl.twar,
        twcr: match writes.twcr {
            Some(value) => value,
            None => ctl.twcr,
        },
        twdr: match writes.twdr {
            Some(value) => value,
            None => ctl.twdr,
        },
    }
}

/// Two rounds of writes in sequence, the later write to a register winning.
pub open spec fn spec_then(first: RegisterWrites, second: RegisterWrites) -> RegisterWrites {
    RegisterWrites {
        twcr: if second.twcr is Some {
            second.twcr
        } else {
            first.twcr
        },
        twdr: if second.twdr is Some {
            second.twdr
        } else {
            first.twdr
        },
    }
}

/// Applying two rounds of writes one after the other is applying their
/// sequence at once.
pub proof fn lemma_apply_then(ctl: Controller, first: RegisterWrites, second: RegisterWrites)
    ensures
        spec_apply(spec_apply(ctl, first), second) == spec_apply(ctl, spec_then(first, second)),
{
}

/// The controller as `configure` leaves it: the slave address in the address
/// register's upper bits, the general-call bit lowest, the control register
/// at its reset value.
pub open spec fn spec_configure(ctl: Controller, address: u8, general_call: bool) -> Controller {
    Controller {
        twar: if general_call {
            (2 * address + 1) as u8
        } else {
            (2 * address) as u8
        },
        twcr: CTRL_RESET,
        twdr: ctl.twdr,
    }
}

/// The controller as `arm` leaves it.
pub open spec fn spec_armed(ctl: Controller) -> Controller {
    Controller { twar: ctl.twar, twcr: CTRL_ARMED, twdr: ctl.twdr }
}

impl Controller {
    /// A register block in its power-on state: every register at zero.
    pub fn new() -> (ctl: Controller)
        ensures
            ctl == (Controller { twar: 0u8, twcr: 0u8, twdr: 0u8 }),
    {
        Controller { twar: 0, twcr: 0, twdr: 0 }
    }

    /// Write the 7-bit slave address and the general-call acceptance choice
    /// into the address register, and reset the control register to its fully
    /// disarmed state. Must run before the first transaction; idempotent.
    pub fn configure(&mut self, address: u8, general_call: bool)
        requires
            address < 128,
        ensures
            *final(self) == spec_configure(*old(self), address, general_call),
    {
        self.twar = if general_call {
            2 * address + 1
        } else {
            2 * address
        };
        self.twcr = CTRL_RESET;
    }

    /// Arm the peripheral: one control register write that clears any pending
    /// start or stop bits and sets acknowledge enable, peripheral enable,
    /// interrupt-pending clear and interrupt enable. After the hardware takes
    /// this value it raises an interrupt on the next bus edge addressed to us.
    pub fn arm(&mut self)
        ensures
            *final(self) == spec_armed(*old(self)),
    {
        self.twcr = CTRL_ARMED;
    }

    /// Return the controller to its known, inert state; runs on every
    /// terminal path of a transaction, success or error.
    pub fn disarm_reset(&mut self)
        ensures
            *final(self) == spec_apply(*old(self), control_write(CTRL_RESET)),
    {
        self.twcr = CTRL_RESET;
    }
}

/// Law: configuring the controller twice with the same address and
/// general-call choice leaves it exactly as configuring it once does, so
/// repeated configuration before a transaction is harmless.
pub proof fn lemma_configure_idempotent(ctl: Controller, address: u8, general_call: bool)
    ensures
        spec_configure(spec_configure(ctl, address, general_call), address, general_call)
            == spec_configure(ctl, address, general_call),
{
}

} // verus!
