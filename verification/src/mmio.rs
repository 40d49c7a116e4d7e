//! The registers of the serial controller, and stores to them as values.
//!
//! The addresses are those of boards whose peripherals start at
//! `0x3F00_0000`. On a board that maps them elsewhere they have to be
//! replaced: nothing here can tell a wrong address from a right one.

use vstd::prelude::*;

verus! {

/// Address of the data register: a store sends a byte, a load takes one.
pub const UART_DR: u32 = 0x3F20_1000;

/// Address of the flag register.
pub const UART_FR: u32 = 0x3F20_1018;

/// Flag bit that is set while the transmit buffer is full.
pub const FR_TXFF: u32 = 0x20;

/// Flag bit that is set while the receive buffer is empty.
pub const FR_RXFE: u32 = 0x10;

/// One store of a word to a device register, for the owner of the bus to
/// carry out.
#[derive(Clone, Copy, Debug, PartialEq, Eq, Structural)]
pub struct Store {
    pub reg: u32,
    pub val: u32,
}

} // verus!
