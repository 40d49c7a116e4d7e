//! A serial echo kernel with the bus left to the caller.
//!
//! The kernel sends a greeting over a memory-mapped serial controller and
//! then sends back every byte that arrives, for ever. All of that waits on
//! the device, so nothing here touches a register. Each function takes the
//! word that a register held and answers what follows from it: which
//! register to load next, and which word to store where. Whoever owns the
//! bus carries that out and comes back with the next word.
//!
//! - [`mmio`]: the registers of the controller, and a store as a value.
//! - [`uart`]: the driver, one poll at a time: the two flags, sending a
//!   byte, receiving a byte, sending a text.
//! - [`kernel`]: the protocol as a machine, one turn for each word.
//! - [`wire`]: what the kernel sends and takes in over any run, and the laws
//!   that hold of it whatever the device answers.

pub mod kernel;
pub mod mmio;
pub mod uart;
pub mod wire;
