//! The kernel's protocol: the greeting once, then every received byte back.
//!
//! The kernel never returns, and it waits on the device at every step, so it
//! is written as a machine. A state says what the kernel is in the middle of
//! and which register it waits for. A turn takes the word of that register
//! and gives the next state, with the store to make before the next load.

use vstd::prelude::*;
use crate::mmio::{UART_FR, Store};
use crate::uart::{getc, receive_turn, send_turn, text_turn, writec, Rx};

verus! {

/// The text that the kernel sends before it listens.
pub const GREETING: &'static str = "Hello Rust Kernel world!";

/// What the kernel is in the middle of.
#[derive(Clone, Copy, Debug, PartialEq, Eq, Structural)]
pub enum Kernel {
    /// Sending the greeting, whose first `at` characters are sent.
    Greeting { at: usize },
    /// Receiving the next byte.
    Receiving { rx: Rx },
    /// Sending `byte` back.
    Echoing { byte: u8 },
}

impl Kernel {
    /// The register whose word the next turn takes.
    pub open spec fn pending(self) -> u32 {
        match self {
            Kernel::Greeting { .. } => UART_FR,
            Kernel::Receiving { rx } => rx.pending(),
            Kernel::Echoing { .. } => UART_FR,
        }
    }

    /// The state in which the kernel starts: nothing of the greeting is sent.
    pub open spec fn initial() -> Kernel {
        Kernel::Greeting { at: 0 }
    }

    /// The state in which the kernel starts.
    pub fn boot() -> (state: Kernel)
        ensures
            state == Kernel::initial(),
    {
        Kernel::Greeting { at: 0 }
    }

    /// The register to load for the next call of [`kernel_main`].
    pub fn register(self) -> (reg: u32)
        ensures
            reg == self.pending(),
    {
        match self {
            Kernel::Greeting { .. } => UART_FR,
            Kernel::Receiving { rx } => rx.register(),
            Kernel::Echoing { .. } => UART_FR,
        }
    }
}

/// The state that follows the greeting when its position is `at`: the kernel
/// listens as soon as no character is left.
pub open spec fn after_greeting(at: usize) -> Kernel {
    if at < GREETING@.len() {
        Kernel::Greeting { at }
    } else {
        Kernel::Receiving { rx: Rx::Polling }
    }
}

/// One turn of the kernel in `state`, on the word of `state.pending()`: the
/// next state, and the store to make before its register is loaded.
pub open spec fn kernel_turn(state: Kernel, word: u32) -> (Kernel, Option<Store>) {
    match state {
        Kernel::Greeting { at } => {
            let (next, store) = text_turn(GREETING@, at, word);
            (after_greeting(next), store)
        },
        Kernel::Receiving { rx } => match receive_turn(rx, word) {
            (_, Some(byte)) => (Kernel::Echoing { byte }, None),
            (rx, None) => (Kernel::Receiving { rx }, None),
        },
        Kernel::Echoing { byte } => match send_turn(byte, word) {
            Some(store) => (Kernel::Receiving { rx: Rx::Polling }, Some(store)),
            None => (state, None),
        },
    }
}

/// One turn of the kernel's endless loop.
///
/// The caller starts from [`Kernel::boot`] and goes round for ever: it loads
/// the register that the state names, hands the word in here, makes the store
/// that comes back, if any, and keeps the new state.
pub fn kernel_main(state: Kernel, word: u32) -> (turn: (Kernel, Option<Store>))
    ensures
        turn == kernel_turn(state, word),
{
    match state {
        Kernel::Greeting { at } => {
            let (next, store) = crate::uart::write(GREETING, at, word);
            if next < GREETING.unicode_len() {
                (Kernel::Greeting { at: next }, store)
            } else {
                (Kernel::Receiving { rx: Rx::Polling }, store)
            }
        },
        Kernel::Receiving { rx } => match getc(rx, word) {
            (_, Some(byte)) => (Kernel::Echoing { byte }, None),
            (rx, None) => (Kernel::Receiving { rx }, None),
        },
        Kernel::Echoing { byte } => match writec(byte, word) {
            Some(store) => (Kernel::Receiving { rx: Rx::Polling }, Some(store)),
            None => (state, None),
        },
    }
}

} // verus!
