//! What byte-exact access means, and that the access scripts provide it.
//!
//! A memory is modelled as the sequence of its bytes, a whole number of words long. Against
//! that model this module states what a read and a write at any byte address have to do,
//! plays the scripts of the access layer to the memory, which takes whole words only, and
//! shows that the two agree.

use vstd::prelude::*;
use crate::access::{BlockRead, BlockWrite, WordRead, WordReadStage, WordWrite, shares_head,
    shares_tail, word_base};
use crate::script::{Asked, Script, play};
use crate::window::{bus_end, range_fits, spec_window, window_image};
use crate::word::{lemma_bytes_of_word, pair_bytes, spec_split_read, spec_split_write, word_at,
    word_bytes};

verus! {

/// Whether `mem` can be the contents of a bus: whole words, no more of them than the bus
/// addresses or a buffer holds.
pub open spec fn is_memory(mem: Seq<u8>) -> bool {
    mem.len() % 4 == 0 && mem.len() <= bus_end() && mem.len() <= usize::MAX
}

/// The `len` bytes of `mem` that start at `addr`.
pub open spec fn mem_read(mem: Seq<u8>, addr: int, len: int) -> Seq<u8> {
    mem.subrange(addr, addr + len)
}

/// `mem` with the bytes from `addr` on replaced by `data`, and every other byte as it was.
pub open spec fn mem_write(mem: Seq<u8>, addr: int, data: Seq<u8>) -> Seq<u8> {
    Seq::new(
        mem.len(),
        |i: int|
            if addr <= i < addr + data.len() {
                data[i - addr]
            } else {
                mem[i]
            },
    )
}

/// Where playing a script to a memory has led: the state of the script, the contents of the
/// memory, and what the last transfer returned.
pub struct OnMemory<S> {
    pub script: S,
    pub mem: Seq<u8>,
    pub last: Seq<u8>,
}

/// Plays up to `transfers` transfers of `script` to the memory `mem`: a read returns the
/// bytes that the memory holds there, a write replaces them. `last` is what the transfer
/// before returned.
pub open spec fn on_memory<S: Script>(script: S, mem: Seq<u8>, last: Seq<u8>, transfers: nat) -> OnMemory<S>
    decreases transfers,
{
    if transfers == 0 {
        OnMemory { script, mem, last }
    } else {
        match script.asks() {
            Asked::Read { addr, len } => {
                let read = mem_read(mem, addr as int, len as int);
                on_memory(script.after(read), mem, read, (transfers - 1) as nat)
            },
            Asked::Write { addr, data } => on_memory(
                script.after(Seq::empty()),
                mem_write(mem, addr as int, data),
                Seq::empty(),
                (transfers - 1) as nat,
            ),
            Asked::Done => OnMemory { script, mem, last },
        }
    }
}

/// Plays `script` to the memory `mem` until it is over.
pub open spec fn played_on<S: Script>(script: S, mem: Seq<u8>) -> OnMemory<S> {
    on_memory(script, mem, Seq::empty(), script.transfers_left())
}

/// What up to `transfers` transfers of `script` return when they are played to the memory
/// `mem`, in order; a write returns nothing.
pub open spec fn memory_reads<S: Script>(script: S, mem: Seq<u8>, transfers: nat) -> Seq<Seq<u8>>
    decreases transfers,
{
    if transfers == 0 {
        Seq::empty()
    } else {
        match script.asks() {
            Asked::Read { addr, len } => {
                let read = mem_read(mem, addr as int, len as int);
                seq![read] + memory_reads(script.after(read), mem, (transfers - 1) as nat)
            },
            Asked::Write { addr, data } => seq![Seq::empty()] + memory_reads(
                script.after(Seq::empty()),
                mem_write(mem, addr as int, data),
                (transfers - 1) as nat,
            ),
            Asked::Done => Seq::empty(),
        }
    }
}

/// A transport that returns what a memory would return brings a script to the state that
/// playing it to that memory brings it to.
pub proof fn lemma_play_on_memory<S: Script>(script: S, mem: Seq<u8>, last: Seq<u8>, transfers: nat)
    ensures
        play(script, memory_reads(script, mem, transfers)) == on_memory(
            script,
            mem,
            last,
            transfers,
        ).script,
    decreases transfers,
{
    if transfers > 0 {
        match script.asks() {
            Asked::Read { addr, len } => {
                let read = mem_read(mem, addr as int, len as int);
                let rest = memory_reads(script.after(read), mem, (transfers - 1) as nat);
                lemma_play_on_memory(script.after(read), mem, read, (transfers - 1) as nat);
                assert((seq![read] + rest).drop_first() =~= rest);
            },
            Asked::Write { addr, data } => {
                let nothing = Seq::<u8>::empty();
                let written = mem_write(mem, addr as int, data);
                let rest = memory_reads(script.after(nothing), written, (transfers - 1) as nat);
                lemma_play_on_memory(script.after(nothing), written, nothing, (transfers - 1) as nat);
                assert((seq![nothing] + rest).drop_first() =~= rest);
            },
            Asked::Done => {},
        }
    }
}

/// The bytes of the aligned word at `at` are the memory's bytes there.
proof fn lemma_word_at_bytes(mem: Seq<u8>, at: int)
    requires
        0 <= at,
        at + 4 <= mem.len(),
    ensures
        word_bytes(word_at(mem, at)) == mem.subrange(at, at + 4),
        word_at(mem.subrange(at, at + 4), 0) == word_at(mem, at),
{
    lemma_bytes_of_word(mem[at], mem[at + 1], mem[at + 2], mem[at + 3]);
    assert(word_bytes(word_at(mem, at)) =~= mem.subrange(at, at + 4));
}

/// The window of a range inside a memory lies inside that memory.
proof fn lemma_window_in_memory(mem: Seq<u8>, addr: u32, len: nat)
    requires
        is_memory(mem),
        addr + len <= mem.len(),
    ensures
        range_fits(addr, len),
        spec_window(addr, len).encloses(len),
        spec_window(addr, len).start + spec_window(addr, len).skip == addr,
        spec_window(addr, len).start + spec_window(addr, len).len <= mem.len(),
{
    if len > 0 {
        let skip = addr % 4;
        let start = addr - skip;
        let total = mem.len() as int;
        assert(start % 4 == 0);
        assert((skip + len + 3) / 4 * 4 <= skip + len + 3);
        assert((skip + len + 3) / 4 * 4 > skip + len - 1);
        assert(start + (skip + len + 3) / 4 * 4 <= total) by (nonlinear_arith)
            requires
                start % 4 == 0,
                total % 4 == 0,
                start + skip + len <= total,
                0 <= skip < 4,
                len > 0,
        ;
    }
}

/// Reading a word at any byte address of a memory gives the word that the memory's four
/// bytes there hold, and leaves the memory as it was.
pub proof fn lemma_word_read_exact(mem: Seq<u8>, addr: u32)
    requires
        is_memory(mem),
        addr + 4 <= mem.len(),
    ensures
        played_on(WordRead::spec_new(addr), mem).script.stage == (WordReadStage::Done {
            word: word_at(mem, addr as int),
        }),
        played_on(WordRead::spec_new(addr), mem).mem == mem,
{
    let script = WordRead::spec_new(addr);
    let base = word_base(addr) as int;
    reveal_with_fuel(on_memory, 3);
    lemma_word_at_bytes(mem, addr as int);
    if addr % 4 != 0 {
        lemma_word_at_bytes(mem, base);
        lemma_word_at_bytes(mem, base + 4);
        let lo = word_at(mem, base);
        let hi = word_at(mem, base + 4);
        assert(pair_bytes(lo, hi) =~= mem.subrange(base, base + 8));
        assert(spec_split_read(lo, hi, (addr % 4) as u32) == word_at(mem, addr as int));
    }
}

/// Writing a word at any byte address of a memory puts the bytes of the value into the four
/// bytes there and leaves every other byte as it was.
pub proof fn lemma_word_write_exact(mem: Seq<u8>, addr: u32, value: u32)
    requires
        is_memory(mem),
        addr + 4 <= mem.len(),
    ensures
        played_on(WordWrite::spec_new(addr, value), mem).script.stage is Done,
        played_on(WordWrite::spec_new(addr, value), mem).mem == mem_write(
            mem,
            addr as int,
            word_bytes(value),
        ),
        forall|i: int|
            0 <= i < mem.len() && !(addr <= i < addr + 4) ==> played_on(
                WordWrite::spec_new(addr, value),
                mem,
            ).mem[i] == mem[i],
        forall|i: int|
            addr <= i < addr + 4 ==> played_on(WordWrite::spec_new(addr, value), mem).mem[i]
                == word_bytes(value)[i - addr],
{
    let script = WordWrite::spec_new(addr, value);
    let base = word_base(addr) as int;
    let wanted = mem_write(mem, addr as int, word_bytes(value));
    reveal_with_fuel(on_memory, 5);
    if addr % 4 != 0 {
        lemma_word_at_bytes(mem, base);
        lemma_word_at_bytes(mem, base + 4);
        let lo = word_at(mem, base);
        let hi = word_at(mem, base + 4);
        let pair = spec_split_write(lo, hi, (addr % 4) as u32, value);
        let new_lo = word_at(pair, 0);
        let new_hi = word_at(pair, 4);
        lemma_word_at_bytes(pair, 0);
        lemma_word_at_bytes(pair, 4);
        let first = mem_write(mem, base, word_bytes(new_lo));
        let second = mem_write(first, base + 4, word_bytes(new_hi));
        assert(second =~= wanted);
        assert(played_on(script, mem).mem == second);
    }
}

/// Reading a block of any length at any byte address of a memory gives the bytes that the
/// memory holds there, and leaves the memory as it was.
pub proof fn lemma_block_read_exact(mem: Seq<u8>, addr: u32, len: usize)
    requires
        is_memory(mem),
        addr + len <= mem.len(),
    ensures
        played_on(BlockRead::spec_new(addr, len), mem).script.stage is Done,
        played_on(BlockRead::spec_new(addr, len), mem).mem == mem,
        BlockRead::spec_new(addr, len).block(played_on(BlockRead::spec_new(addr, len), mem).last)
            == mem_read(mem, addr as int, len as int),
{
    let script = BlockRead::spec_new(addr, len);
    reveal_with_fuel(on_memory, 2);
    lemma_window_in_memory(mem, addr, len as nat);
    assert(script.block(played_on(script, mem).last) =~= mem_read(mem, addr as int, len as int));
}

/// Writing a block of any length at any byte address of a memory puts the block into the
/// bytes there and leaves every other byte as it was.
pub proof fn lemma_block_write_exact(mem: Seq<u8>, addr: u32, data: &[u8])
    requires
        is_memory(mem),
        addr + data@.len() <= mem.len(),
    ensures
        played_on(BlockWrite::spec_new(addr, data), mem).script.stage is Done,
        played_on(BlockWrite::spec_new(addr, data), mem).mem == mem_write(mem, addr as int, data@),
        forall|i: int|
            0 <= i < mem.len() && !(addr <= i < addr + data@.len()) ==> played_on(
                BlockWrite::spec_new(addr, data),
                mem,
            ).mem[i] == mem[i],
        forall|i: int|
            addr <= i < addr + data@.len() ==> played_on(BlockWrite::spec_new(addr, data), mem).mem[i]
                == data@[i - addr],
{
    let script = BlockWrite::spec_new(addr, data);
    let n = data@.len();
    let w = script.window;
    let wanted = mem_write(mem, addr as int, data@);
    reveal_with_fuel(on_memory, 4);
    if n == 0 {
        assert(mem =~= wanted);
    } else {
        lemma_window_in_memory(mem, addr, n);
        let end = w.start + w.len;
        lemma_word_at_bytes(mem, w.start as int);
        lemma_word_at_bytes(mem, end - 4);
        let head = word_at(mem, w.start as int);
        let tail = word_at(mem, end - 4);
        let image = window_image(w, word_bytes(head), word_bytes(tail), data@);
        assert(mem_write(mem, w.start as int, image) =~= wanted);
        let got = played_on(script, mem);
        if shares_head(w, n) {
            if shares_tail(w, n) {
                assert(got.script.head == head && got.script.tail == tail);
            } else {
                assert(got.script.head == head);
                assert(mem_write(mem, w.start as int, got.script.image()) =~= wanted);
            }
        } else if shares_tail(w, n) {
            assert(got.script.tail == tail);
            assert(mem_write(mem, w.start as int, got.script.image()) =~= wanted);
        } else {
            assert(mem_write(mem, w.start as int, got.script.image()) =~= wanted);
        }
        assert(got.mem == wanted);
    }
}

/// A four-byte block read and a word read at the same byte address agree byte for byte.
pub proof fn lemma_block_read_matches_word_read(mem: Seq<u8>, addr: u32)
    requires
        is_memory(mem),
        addr + 4 <= mem.len(),
    ensures
        played_on(WordRead::spec_new(addr), mem).script.stage matches WordReadStage::Done { word }
            && word_bytes(word) == BlockRead::spec_new(addr, 4).block(
            played_on(BlockRead::spec_new(addr, 4), mem).last,
        ),
{
    lemma_word_read_exact(mem, addr);
    lemma_block_read_exact(mem, addr, 4);
    lemma_word_at_bytes(mem, addr as int);
}

/// What was written is what is read back: at the same address the whole buffer, and at
/// `shift` bytes further on the buffer from its byte `shift` on, as the first bytes read.
pub proof fn lemma_round_trip(mem: Seq<u8>, addr: u32, data: &[u8], shift: usize, len: usize)
    requires
        is_memory(mem),
        addr + data@.len() <= mem.len(),
        shift <= data@.len(),
        addr + shift + len <= mem.len(),
        data@.len() - shift <= len,
    ensures
        ({
            let written = played_on(BlockWrite::spec_new(addr, data), mem).mem;
            let read = BlockRead::spec_new((addr + shift) as u32, len);
            read.block(played_on(read, written).last).subrange(0, data@.len() - shift)
                == data@.subrange(shift as int, data@.len() as int)
        }),
{
    let written = played_on(BlockWrite::spec_new(addr, data), mem).mem;
    let read = BlockRead::spec_new((addr + shift) as u32, len);
    lemma_block_write_exact(mem, addr, data);
    lemma_block_read_exact(written, (addr + shift) as u32, len);
    assert(mem_read(written, addr + shift, len as int).subrange(0, data@.len() - shift)
        =~= data@.subrange(shift as int, data@.len() as int));
}

} // verus!
