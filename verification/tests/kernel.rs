use std::collections::VecDeque;
use uart_echo::kernel::{kernel_main, Kernel, GREETING};
use uart_echo::mmio::{Store, UART_DR, UART_FR};
use uart_echo::uart::Rx;

/// A serial controller with its two registers kept in memory.
struct Device {
    /// Bytes that arrive over the wire, the next one first.
    incoming: VecDeque<u8>,
    /// Words stored to the data register.
    outgoing: Vec<u32>,
    /// Of every `period` loads of the flag register, the last one shows room
    /// to send; none does if it is zero.
    period: u32,
    flag_loads: u32,
    /// Registers loaded and stored to, in order: `true` marks a store.
    accesses: Vec<(bool, u32)>,
}

impl Device {
    fn new(incoming: &[u8], period: u32) -> Device {
        Device {
            incoming: incoming.iter().copied().collect(),
            outgoing: Vec::new(),
            period,
            flag_loads: 0,
            accesses: Vec::new(),
        }
    }

    fn load(&mut self, reg: u32) -> u32 {
        self.accesses.push((false, reg));
        if reg == UART_FR {
            self.flag_loads += 1;
            let room = self.period != 0 && self.flag_loads % self.period == 0;
            let mut fr = 0x0000_0080;
            if !room {
                fr |= 0x20;
            }
            if self.incoming.is_empty() {
                fr |= 0x10;
            }
            fr
        } else if reg == UART_DR {
            match self.incoming.pop_front() {
                Some(b) => 0x0000_0300 | b as u32,
                None => panic!("the data register was loaded with nothing in it"),
            }
        } else {
            panic!("load of a register that the controller does not have");
        }
    }

    fn store(&mut self, store: Store) {
        self.accesses.push((true, store.reg));
        assert_eq!(store.reg, UART_DR);
        self.outgoing.push(store.val);
    }
}

fn drive(device: &mut Device, turns: usize) -> Kernel {
    let mut state = Kernel::boot();
    for _ in 0..turns {
        let word = device.load(state.register());
        let (next, store) = kernel_main(state, word);
        if let Some(store) = store {
            assert_eq!(word & 0x20, 0);
            device.store(store);
        }
        state = next;
    }
    state
}

fn words_of(bytes: &[u8]) -> Vec<u32> {
    bytes.iter().map(|b| *b as u32).collect()
}

#[test]
fn greeting_text() {
    assert_eq!(GREETING, "Hello Rust Kernel world!");
    assert_eq!(GREETING.len(), 24);
}

#[test]
fn boot_starts_the_greeting_at_the_flag_register() {
    assert_eq!(Kernel::boot(), Kernel::Greeting { at: 0 });
    assert_eq!(Kernel::boot().register(), 0x3F20_1018);
}

#[test]
fn states_name_the_register_to_load() {
    assert_eq!(Kernel::Greeting { at: 5 }.register(), UART_FR);
    assert_eq!(Kernel::Receiving { rx: Rx::Polling }.register(), UART_FR);
    assert_eq!(Kernel::Receiving { rx: Rx::Fetching }.register(), UART_DR);
    assert_eq!(Kernel::Echoing { byte: 9 }.register(), UART_FR);
}

#[test]
fn first_turn_sends_the_first_character() {
    assert_eq!(
        kernel_main(Kernel::boot(), 0x00),
        (Kernel::Greeting { at: 1 }, Some(Store { reg: 0x3F20_1000, val: 0x48 }))
    );
    assert_eq!(kernel_main(Kernel::boot(), 0x20), (Kernel::Greeting { at: 0 }, None));
}

#[test]
fn last_character_of_the_greeting_leads_to_listening() {
    assert_eq!(
        kernel_main(Kernel::Greeting { at: 23 }, 0x10),
        (Kernel::Receiving { rx: Rx::Polling }, Some(Store { reg: 0x3F20_1000, val: 0x21 }))
    );
    assert_eq!(kernel_main(Kernel::Greeting { at: 23 }, 0x30), (Kernel::Greeting { at: 23 }, None));
}

#[test]
fn a_greeting_position_past_the_end_listens() {
    assert_eq!(
        kernel_main(Kernel::Greeting { at: 24 }, 0x00),
        (Kernel::Receiving { rx: Rx::Polling }, None)
    );
    assert_eq!(
        kernel_main(Kernel::Greeting { at: usize::MAX }, 0x20),
        (Kernel::Receiving { rx: Rx::Polling }, None)
    );
}

#[test]
fn receiving_turns() {
    let polling = Kernel::Receiving { rx: Rx::Polling };
    let fetching = Kernel::Receiving { rx: Rx::Fetching };
    assert_eq!(kernel_main(polling, 0x10), (polling, None));
    assert_eq!(kernel_main(polling, 0x30), (polling, None));
    assert_eq!(kernel_main(polling, 0x00), (fetching, None));
    assert_eq!(kernel_main(polling, 0x20), (fetching, None));
    assert_eq!(kernel_main(fetching, 0x0000_0041), (Kernel::Echoing { byte: 0x41 }, None));
    assert_eq!(kernel_main(fetching, 0xABCD_EF0D), (Kernel::Echoing { byte: 0x0D }, None));
}

#[test]
fn echoing_turns() {
    let echoing = Kernel::Echoing { byte: 0x42 };
    assert_eq!(kernel_main(echoing, 0x20), (echoing, None));
    assert_eq!(kernel_main(echoing, 0x30), (echoing, None));
    assert_eq!(
        kernel_main(echoing, 0x00),
        (Kernel::Receiving { rx: Rx::Polling }, Some(Store { reg: 0x3F20_1000, val: 0x42 }))
    );
}

#[test]
fn greeting_comes_first_and_whole() {
    let mut device = Device::new(&[], 1);
    let state = drive(&mut device, 24);
    assert_eq!(device.outgoing, words_of(b"Hello Rust Kernel world!"));
    assert_eq!(state, Kernel::Receiving { rx: Rx::Polling });

    let state = drive(&mut Device::new(&[], 1), 1000);
    assert_eq!(state, Kernel::Receiving { rx: Rx::Polling });
}

#[test]
fn nothing_is_sent_after_the_greeting_while_nothing_arrives() {
    let mut device = Device::new(&[], 1);
    drive(&mut device, 5000);
    assert_eq!(device.outgoing, words_of(b"Hello Rust Kernel world!"));
    assert!(device.accesses.iter().all(|a| a.1 == UART_DR && a.0 || a.1 == UART_FR && !a.0));
}

#[test]
fn three_bytes_come_back_as_they_went_in() {
    let mut device = Device::new(&[0x41, 0x42, 0x0D], 1);
    let state = drive(&mut device, 24 + 3 * 3);
    assert_eq!(device.outgoing[..24], words_of(b"Hello Rust Kernel world!"));
    assert_eq!(device.outgoing[24..], [0x41, 0x42, 0x0D]);
    assert!(device.incoming.is_empty());
    assert_eq!(state, Kernel::Receiving { rx: Rx::Polling });
}

#[test]
fn every_byte_value_comes_back_unchanged() {
    let all: Vec<u8> = (0..=255u8).collect();
    let mut device = Device::new(&all, 1);
    drive(&mut device, 24 + 3 * 256);
    assert_eq!(device.outgoing.len(), 24 + 256);
    assert_eq!(device.outgoing[24..], words_of(&all));
}

#[test]
fn echo_is_exact_on_a_slow_transmitter() {
    let input: Vec<u8> = b"slow\r\n\x00\xff".to_vec();
    let mut device = Device::new(&input, 7);
    let state = drive(&mut device, 7 * 24 + (2 + 7) * input.len());
    let mut expected = words_of(b"Hello Rust Kernel world!");
    expected.extend(words_of(&input));
    assert_eq!(device.outgoing, expected);
    assert_eq!(state, Kernel::Receiving { rx: Rx::Polling });
}

#[test]
fn at_most_one_byte_is_held_back() {
    let input: Vec<u8> = (1..=50u8).collect();
    for turns in 0..400 {
        let mut device = Device::new(&input, 3);
        let state = drive(&mut device, turns);
        let taken = input.len() - device.incoming.len();
        let mut expected = words_of(b"Hello Rust Kernel world!");
        expected.extend(words_of(&input[..taken]));
        match state {
            Kernel::Greeting { at } => {
                assert_eq!(taken, 0);
                assert_eq!(device.outgoing.len(), at);
                assert_eq!(device.outgoing[..], expected[..at]);
            }
            Kernel::Receiving { .. } => assert_eq!(device.outgoing, expected),
            Kernel::Echoing { byte } => {
                assert_eq!(byte, input[taken - 1]);
                assert_eq!(device.outgoing[..], expected[..expected.len() - 1]);
            }
        }
    }
}

#[test]
fn data_register_is_left_alone_until_the_greeting_is_out() {
    let mut device = Device::new(&[0x58], 5);
    drive(&mut device, 5 * 24 + 20);
    let first_data_load = device.accesses.iter().position(|a| *a == (false, UART_DR)).unwrap();
    let stores_before = device.accesses[..first_data_load].iter().filter(|a| a.0).count();
    assert_eq!(stores_before, 24);
    assert_eq!(device.outgoing.len(), 25);
    assert_eq!(device.outgoing[24], 0x58);
}

#[test]
fn a_transmitter_that_never_has_room_blocks_the_greeting() {
    let mut device = Device::new(&[0x41], 0);
    let state = drive(&mut device, 10_000);
    assert_eq!(state, Kernel::Greeting { at: 0 });
    assert!(device.outgoing.is_empty());
    assert_eq!(device.incoming.len(), 1);
    assert!(device.accesses.iter().all(|a| *a == (false, UART_FR)));
}

#[test]
fn a_transmitter_that_never_has_room_blocks_the_echo() {
    let mut state = Kernel::Echoing { byte: 0x41 };
    for turn in 0..10_000u32 {
        assert_eq!(state.register(), UART_FR);
        let (next, store) = kernel_main(state, 0x20 | (turn << 6));
        assert_eq!(store, None);
        assert_eq!(next, Kernel::Echoing { byte: 0x41 });
        state = next;
    }
}

#[test]
fn a_receiver_with_nothing_in_it_blocks_the_kernel() {
    let mut state = Kernel::Receiving { rx: Rx::Polling };
    for turn in 0..10_000u32 {
        assert_eq!(state.register(), UART_FR);
        let (next, store) = kernel_main(state, 0x10 | (turn << 6));
        assert_eq!(store, None);
        assert_eq!(next, Kernel::Receiving { rx: Rx::Polling });
        state = next;
    }
}
