//! The serial driver: one function per operation, one call per poll.
//!
//! An operation that waits for the device is cut at its loads. A call takes
//! the word of one load and answers with what follows from it; the caller
//! loads again and calls again until the operation says it is finished.
//! Sending polls the flag register throughout. Receiving polls it until a
//! byte waits, and then loads the data register once.

use vstd::prelude::*;
use crate::mmio::{FR_RXFE, FR_TXFF, UART_DR, UART_FR, Store};

verus! {

/// Whether the flag word `fr` shows room in the transmit buffer.
pub open spec fn transmit_ready(fr: u32) -> bool {
    fr & FR_TXFF == 0
}

/// Whether the flag word `fr` shows a received byte waiting.
pub open spec fn receive_ready(fr: u32) -> bool {
    fr & FR_RXFE == 0
}

/// The store that puts the byte `b` on the wire.
pub open spec fn data_store(b: u8) -> Store {
    Store { reg: UART_DR, val: b as u32 }
}

/// The byte that a word of the data register carries: its low eight bits.
pub open spec fn low_byte(word: u32) -> u8 {
    (word % 256) as u8
}

/// The byte that stands for a character on the wire: the low eight bits of
/// its code point.
pub open spec fn char_byte(c: char) -> u8 {
    (c as u32 % 256) as u8
}

/// A text as it goes over the wire, one byte for each character.
pub open spec fn text_bytes(text: Seq<char>) -> Seq<u8> {
    text.map_values(|c: char| char_byte(c))
}

/// One poll of sending `c`: the store to make, if `fr` shows room.
pub open spec fn send_turn(c: u8, fr: u32) -> Option<Store> {
    if transmit_ready(fr) {
        Some(data_store(c))
    } else {
        None
    }
}

/// How far a receive has come.
#[derive(Clone, Copy, Debug, PartialEq, Eq, Structural)]
pub enum Rx {
    /// Waiting for the flag register to show a byte.
    Polling,
    /// A byte waits, and the data register is being loaded.
    Fetching,
}

impl Rx {
    /// The register whose word the next turn of the receive takes.
    pub open spec fn pending(self) -> u32 {
        match self {
            Rx::Polling => UART_FR,
            Rx::Fetching => UART_DR,
        }
    }

    /// The register to load for the next call of [`getc`].
    pub fn register(self) -> (reg: u32)
        ensures
            reg == self.pending(),
    {
        match self {
            Rx::Polling => UART_FR,
            Rx::Fetching => UART_DR,
        }
    }
}

/// One turn of a receive that stands at `rx`, on the word of `rx.pending()`:
/// where the receive stands afterwards, and the byte if this turn took one.
pub open spec fn receive_turn(rx: Rx, word: u32) -> (Rx, Option<u8>) {
    match rx {
        Rx::Polling => if receive_ready(word) {
            (Rx::Fetching, None)
        } else {
            (Rx::Polling, None)
        },
        Rx::Fetching => (Rx::Polling, Some(low_byte(word))),
    }
}

/// One poll of sending the text `text` from its character `at` on: the
/// position afterwards, and the store to make if `fr` shows room. The text is
/// sent once the position is its length.
pub open spec fn text_turn(text: Seq<char>, at: usize, fr: u32) -> (usize, Option<Store>) {
    if at < text.len() && transmit_ready(fr) {
        ((at + 1) as usize, Some(data_store(char_byte(text[at as int]))))
    } else {
        (at, None)
    }
}

/// Reads the "transmit buffer full" bit of the flag word `fr`.
pub fn transmit_fifo_full(fr: u32) -> (full: bool)
    ensures
        full == !transmit_ready(fr),
{
    fr & FR_TXFF > 0
}

/// Reads the "receive buffer empty" bit of the flag word `fr`.
pub fn receive_fifo_empty(fr: u32) -> (empty: bool)
    ensures
        empty == !receive_ready(fr),
{
    fr & FR_RXFE > 0
}

/// One poll of sending the byte `c`, on the flag word `fr`.
///
/// While the transmit buffer is full there is nothing to store, and the
/// caller polls again. Once there is room the answer is the store of `c` to
/// the data register, and with it the byte is sent.
pub fn writec(c: u8, fr: u32) -> (store: Option<Store>)
    ensures
        store == send_turn(c, fr),
{
    if transmit_fifo_full(fr) {
        None
    } else {
        Some(Store { reg: UART_DR, val: c as u32 })
    }
}

/// One turn of receiving a byte, on the word of the register that `rx` names.
///
/// While the receive buffer is empty the receive stays at polling. Once a
/// byte waits it moves on to fetching, and the turn after that takes the byte
/// from the word of the data register and is back at polling.
pub fn getc(rx: Rx, word: u32) -> (turn: (Rx, Option<u8>))
    ensures
        turn == receive_turn(rx, word),
{
    match rx {
        Rx::Polling => if receive_fifo_empty(word) {
            (Rx::Polling, None)
        } else {
            (Rx::Fetching, None)
        },
        Rx::Fetching => {
            assert(word as u8 == (word % 256) as u8) by (bit_vector);
            (Rx::Polling, Some(#[verifier::truncate] (word as u8)))
        },
    }
}

/// One poll of sending the text `msg`, whose first `at` characters are sent,
/// on the flag word `fr`.
///
/// Each character goes out as one byte, the low eight bits of its code point,
/// through [`writec`]. The answer is the position afterwards and the store to
/// make, if any. The text is sent once the position is its length in
/// characters; from there on a call changes nothing.
pub fn write(msg: &str, at: usize, fr: u32) -> (turn: (usize, Option<Store>))
    ensures
        turn == text_turn(msg@, at, fr),
{
    if at < msg.unicode_len() {
        let code: u32 = msg.get_char(at) as u32;
        assert(code as u8 == (code % 256) as u8) by (bit_vector);
        match writec(#[verifier::truncate] (code as u8), fr) {
            Some(store) => (at + 1, Some(store)),
            None => (at, None),
        }
    } else {
        (at, None)
    }
}

/// The two flags are bits five and four of the flag word, read as a number:
/// the transmit buffer has room exactly when bit five is clear, and a
/// received byte waits exactly when bit four is clear. Nothing else in the
/// word counts, and neither bit bears on the other.
pub proof fn lemma_flag_bits(fr: u32)
    ensures
        transmit_ready(fr) <==> (fr / 32) % 2 == 0,
        receive_ready(fr) <==> (fr / 16) % 2 == 0,
{
    assert((fr & 0x20 == 0) <==> (fr / 32) % 2 == 0) by (bit_vector);
    assert((fr & 0x10 == 0) <==> (fr / 16) % 2 == 0) by (bit_vector);
}

/// Every byte value comes through unchanged: taken from a word of the data
/// register that holds it, it is that byte, and the store that sends it
/// holds that byte and nothing more.
pub proof fn lemma_byte_unchanged(byte: u8, fr: u32)
    ensures
        receive_turn(Rx::Fetching, byte as u32) == (Rx::Polling, Some(byte)),
        transmit_ready(fr) ==> send_turn(byte, fr) == Some(
            (Store { reg: UART_DR, val: byte as u32 }),
        ),
        low_byte(data_store(byte).val) == byte,
{
}

/// The position in `text` after one poll on each of `words`, from `at` on.
pub open spec fn text_run(text: Seq<char>, at: usize, words: Seq<u32>) -> usize
    decreases words.len(),
{
    if words.len() == 0 {
        at
    } else {
        text_turn(text, text_run(text, at, words.drop_last()), words.last()).0
    }
}

/// The stores that those polls make, in order.
pub open spec fn text_stores(text: Seq<char>, at: usize, words: Seq<u32>) -> Seq<Store>
    decreases words.len(),
{
    if words.len() == 0 {
        Seq::empty()
    } else {
        let before = text_stores(text, at, words.drop_last());
        match text_turn(text, text_run(text, at, words.drop_last()), words.last()).1 {
            Some(store) => before.push(store),
            None => before,
        }
    }
}

/// A text goes out in order, one byte for each character and nothing in
/// between: whatever the flag words are, the stores made from position `at`
/// on are those of the bytes from `at` up to the position reached, which
/// never passes the end of the text.
pub proof fn lemma_text_in_order(text: Seq<char>, at: usize, words: Seq<u32>)
    requires
        at <= text.len() <= usize::MAX,
    ensures
        at <= text_run(text, at, words) <= text.len(),
        text_stores(text, at, words) == text_bytes(text).subrange(
            at as int,
            text_run(text, at, words) as int,
        ).map_values(|b: u8| data_store(b)),
    decreases words.len(),
{
    if words.len() > 0 {
        lemma_text_in_order(text, at, words.drop_last());
    }
    assert(text_stores(text, at, words) =~= text_bytes(text).subrange(
        at as int,
        text_run(text, at, words) as int,
    ).map_values(|b: u8| data_store(b)));
}

} // verus!
