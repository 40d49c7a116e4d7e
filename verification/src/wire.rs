//! What goes over the wire while the kernel runs, whatever the device does.
//!
//! A run is given by the words that the loads return, in order: the device
//! may answer anything. From them follow the stores that the kernel makes
//! and the bytes that it takes in. The laws below relate the two.

use vstd::prelude::*;
use crate::kernel::{kernel_turn, Kernel, GREETING};
use crate::mmio::{Store, UART_DR};
use crate::uart::{
    data_store, low_byte, receive_ready, receive_turn, text_bytes, transmit_ready, Rx,
};

verus! {

/// The state after one turn on each of `words`, starting in `state`.
pub open spec fn run(state: Kernel, words: Seq<u32>) -> Kernel
    decreases words.len(),
{
    if words.len() == 0 {
        state
    } else {
        kernel_turn(run(state, words.drop_last()), words.last()).0
    }
}

/// The stores that those turns make, in order.
pub open spec fn stores(state: Kernel, words: Seq<u32>) -> Seq<Store>
    decreases words.len(),
{
    if words.len() == 0 {
        Seq::empty()
    } else {
        let before = stores(state, words.drop_last());
        match kernel_turn(run(state, words.drop_last()), words.last()).1 {
            Some(store) => before.push(store),
            None => before,
        }
    }
}

/// The bytes that those stores send, in order.
pub open spec fn sent(state: Kernel, words: Seq<u32>) -> Seq<u8> {
    stores(state, words).map_values(|store: Store| low_byte(store.val))
}

/// The byte that a turn in `state` on `word` takes from the wire, if any.
pub open spec fn taken(state: Kernel, word: u32) -> Option<u8> {
    match state {
        Kernel::Receiving { rx } => receive_turn(rx, word).1,
        _ => None,
    }
}

/// The bytes that those turns take from the wire, in order.
pub open spec fn received(state: Kernel, words: Seq<u32>) -> Seq<u8>
    decreases words.len(),
{
    if words.len() == 0 {
        Seq::empty()
    } else {
        let before = received(state, words.drop_last());
        match taken(run(state, words.drop_last()), words.last()) {
            Some(byte) => before.push(byte),
            None => before,
        }
    }
}

/// The bytes that the kernel in `state` has yet to send: the rest of the
/// greeting, or the byte that it holds.
pub open spec fn backlog(state: Kernel) -> Seq<u8> {
    match state {
        Kernel::Greeting { at } => if at < GREETING@.len() {
            text_bytes(GREETING@).skip(at as int)
        } else {
            Seq::empty()
        },
        Kernel::Receiving { .. } => Seq::empty(),
        Kernel::Echoing { byte } => seq![byte],
    }
}

/// Whether the kernel in `state` waits for room to send.
pub open spec fn sending(state: Kernel) -> bool {
    match state {
        Kernel::Greeting { at } => at < GREETING@.len(),
        Kernel::Receiving { .. } => false,
        Kernel::Echoing { .. } => true,
    }
}

/// Bytes are neither made nor lost: from any state and on any words, what
/// was sent, followed by what is yet to send, is what was to send at the
/// start followed by what was received. Every store goes to the data
/// register and carries one of these bytes and nothing else.
pub proof fn lemma_bytes_kept(state: Kernel, words: Seq<u32>)
    ensures
        sent(state, words) + backlog(run(state, words)) == backlog(state) + received(
            state,
            words,
        ),
        forall|i: int|
            0 <= i < stores(state, words).len() ==> #[trigger] stores(state, words)[i]
                == data_store(sent(state, words)[i]),
    decreases words.len(),
{
    if words.len() == 0 {
        assert(sent(state, words) + backlog(state) =~= backlog(state) + received(state, words));
    } else {
        let front = words.drop_last();
        let word = words.last();
        let before = run(state, front);
        lemma_bytes_kept(state, front);
        let (after, store) = kernel_turn(before, word);
        if before is Greeting && store is Some {
            reveal_strlit("Hello Rust Kernel world!");
            assert(backlog(before) =~= seq![backlog(before)[0]] + backlog(after));
        }
        assert(sent(state, words) + backlog(after) =~= backlog(state) + received(state, words));
    }
}

/// A store is made only on a flag word that shows room, by a kernel that has
/// a byte to send; and the data register is loaded only after a flag word
/// that shows a byte waiting, by a kernel that polls for one.
pub proof fn lemma_waits_for_the_device(state: Kernel, word: u32)
    ensures
        kernel_turn(state, word).1 is Some <==> sending(state) && transmit_ready(word),
        kernel_turn(state, word).0.pending() == UART_DR <==> state == (Kernel::Receiving {
            rx: Rx::Polling,
        }) && receive_ready(word),
{
}

/// While the flag words show no room, a kernel that has a byte to send stays
/// where it is and stores nothing, however long that lasts.
pub proof fn lemma_send_blocked(state: Kernel, words: Seq<u32>)
    requires
        sending(state),
        forall|i: int| 0 <= i < words.len() ==> !transmit_ready(#[trigger] words[i]),
    ensures
        run(state, words) == state,
        stores(state, words) == Seq::<Store>::empty(),
    decreases words.len(),
{
    if words.len() > 0 {
        lemma_send_blocked(state, words.drop_last());
    }
}

/// While the flag words show no byte waiting, a kernel that polls for one
/// stays where it is and takes nothing in; the data register is not loaded.
pub proof fn lemma_receive_blocked(words: Seq<u32>)
    requires
        forall|i: int| 0 <= i < words.len() ==> !receive_ready(#[trigger] words[i]),
    ensures
        run(Kernel::Receiving { rx: Rx::Polling }, words) == (Kernel::Receiving {
            rx: Rx::Polling,
        }),
        received(Kernel::Receiving { rx: Rx::Polling }, words) == Seq::<u8>::empty(),
    decreases words.len(),
{
    if words.len() > 0 {
        lemma_receive_blocked(words.drop_last());
    }
}

/// From the start, the greeting goes out first and whole. The kernel is at
/// the greeting exactly as long as less than the greeting is sent; it then
/// stands at the character that comes next and has taken nothing in. What is
/// sent begins with the greeting, as far as it goes. And the data register is
/// not loaded before the greeting is out.
pub proof fn lemma_greeting_first(words: Seq<u32>)
    ensures
        sent(Kernel::initial(), words).len() < GREETING@.len() <==> run(
            Kernel::initial(),
            words,
        ) is Greeting,
        sent(Kernel::initial(), words).len() < GREETING@.len() ==> run(
            Kernel::initial(),
            words,
        ) == (Kernel::Greeting { at: sent(Kernel::initial(), words).len() as usize })
            && received(Kernel::initial(), words).len() == 0,
        sent(Kernel::initial(), words).len() <= GREETING@.len() ==> sent(
            Kernel::initial(),
            words,
        ).is_prefix_of(text_bytes(GREETING@)),
        sent(Kernel::initial(), words).len() >= GREETING@.len() ==> text_bytes(
            GREETING@,
        ).is_prefix_of(sent(Kernel::initial(), words)),
        run(Kernel::initial(), words).pending() == UART_DR ==> sent(
            Kernel::initial(),
            words,
        ).len() >= GREETING@.len(),
    decreases words.len(),
{
    let start = Kernel::initial();
    reveal_strlit("Hello Rust Kernel world!");
    lemma_bytes_kept(start, words);
    assert(backlog(start) =~= text_bytes(GREETING@));
    if words.len() > 0 {
        lemma_greeting_first(words.drop_last());
        lemma_bytes_kept(start, words.drop_last());
    }
    let out = sent(start, words);
    assert(out =~= (out + backlog(run(start, words))).take(out.len() as int));
    if out.len() <= GREETING@.len() {
        assert(out =~= text_bytes(GREETING@).take(out.len() as int));
    } else {
        assert(text_bytes(GREETING@) =~= out.take(GREETING@.len() as int));
    }
}

/// From the start, the wire carries the greeting and then each received byte
/// back, unchanged and in order: what is sent is the greeting followed by
/// what was received, but for the one byte that the kernel may hold; and a
/// kernel that waits for the next byte has sent all of it.
pub proof fn lemma_echo(words: Seq<u32>)
    ensures
        sent(Kernel::initial(), words) + backlog(run(Kernel::initial(), words)) == text_bytes(
            GREETING@,
        ) + received(Kernel::initial(), words),
        sent(Kernel::initial(), words).is_prefix_of(
            text_bytes(GREETING@) + received(Kernel::initial(), words),
        ),
        received(Kernel::initial(), words).len() > 0 ==> backlog(
            run(Kernel::initial(), words),
        ).len() <= 1,
        run(Kernel::initial(), words) is Receiving ==> sent(Kernel::initial(), words)
            == text_bytes(GREETING@) + received(Kernel::initial(), words),
{
    let start = Kernel::initial();
    lemma_bytes_kept(start, words);
    lemma_greeting_first(words);
    assert(backlog(start) =~= text_bytes(GREETING@));
    let out = sent(start, words);
    assert(out =~= (out + backlog(run(start, words))).take(out.len() as int));
    if run(start, words) is Receiving {
        assert(out =~= out + backlog(run(start, words)));
    }
}

} // verus!
