//! Byte-exact access to the local bus through a transport that moves whole words.
//!
//! A word or a block at any byte address is rebuilt from the words that enclose it; a write
//! first reads the words that it covers only in part. Each of the four operations is a
//! script, so the transfers that it asks for are stated exactly, and all of them are of
//! whole words. Nothing is retried: the first failure of the transport ends the operation
//! and is returned, and what was written before it stays written.

use vstd::prelude::*;
use crate::chip_interface::{Call, ChipInterface};
use crate::error::{AxiError, LuwenError, PciError, PlatformError};
use crate::script::{Asked, Script, Step, carried_out, failure_of, fits, last_read, play, played,
    reached, run, step_answered, step_failed};
use crate::window::{Window, assemble, bus_end, enclosing_window, extract, range_fits, spec_window,
    window_image};
use crate::word::{spec_split_read, spec_split_write, split_read, split_write, word_at, word_bytes,
    word_from_bytes, word_to_bytes};

verus! {

/// The error that reports a refused address.
pub open spec fn refused(e: AxiError) -> LuwenError {
    LuwenError::PlatformError(PlatformError::AxiError(e))
}

/// Whether `r` is a result that an operation on a well-addressed range can have: success,
/// or the failure of the transport.
pub open spec fn done_or_transport<V>(r: Result<V, LuwenError>) -> bool {
    r matches Err(e) ==> e is PciError
}

/// Why a word at `addr` cannot be accessed, if it cannot: it would run past the end of the
/// bus.
pub open spec fn word_refusal(addr: u32) -> Option<AxiError> {
    if addr + 4 > bus_end() {
        Some(AxiError::RangeOverflow { addr, len: 4 })
    } else {
        None
    }
}

/// Why `len` bytes at `addr` cannot be accessed, if they cannot.
pub open spec fn block_refusal(addr: u32, len: nat) -> Option<AxiError> {
    if range_fits(addr, len) {
        None
    } else {
        Some(AxiError::RangeOverflow { addr, len: len as usize })
    }
}

/// The address of the word in which byte `addr` lies.
pub open spec fn word_base(addr: u32) -> u32 {
    (addr - addr % 4) as u32
}

/// The word that the four bytes of `read` hold.
fn word_from_slice(read: &[u8]) -> (w: u32)
    requires
        read@.len() == 4,
    ensures
        w == word_at(read@, 0),
{
    let bytes: [u8; 4] = [read[0], read[1], read[2], read[3]];
    word_from_bytes(&bytes)
}

/// The four bytes of `w`, to be written.
fn word_to_vec(w: u32) -> (bytes: Vec<u8>)
    ensures
        bytes@ == word_bytes(w),
{
    let b = word_to_bytes(w);
    let mut bytes: Vec<u8> = Vec::with_capacity(4);
    bytes.push(b[0]);
    bytes.push(b[1]);
    bytes.push(b[2]);
    bytes.push(b[3]);
    assert(bytes@ =~= word_bytes(w));
    bytes
}

/// How far the reading of a word has come.
#[derive(Clone, Copy, Debug, PartialEq, Eq, Structural)]
pub enum WordReadStage {
    /// The word in which the first byte lies is to be read.
    Lower,
    /// That word was `lo`; the word after it is to be read.
    Upper { lo: u32 },
    /// The word was read.
    Done { word: u32 },
}

/// Reading the word at any byte address: one aligned word, or two neighbouring ones that
/// are shifted and joined.
#[derive(Clone, Copy, Debug, PartialEq, Eq, Structural)]
pub struct WordRead {
    pub addr: u32,
    pub stage: WordReadStage,
}

impl WordRead {
    /// The script that reads the word at `addr`, before its first transfer.
    pub open spec fn spec_new(addr: u32) -> WordRead {
        WordRead { addr, stage: WordReadStage::Lower }
    }

    /// The script that reads the word at `addr`. A word that would run past the end of the
    /// bus is refused.
    pub fn new(addr: u32) -> (r: Result<WordRead, AxiError>)
        ensures
            r is Ok <==> word_refusal(addr) is None,
            r matches Ok(script) ==> script == Self::spec_new(addr) && script.well_formed(),
            r matches Err(e) ==> word_refusal(addr) == Some(e),
    {
        if addr > 0xffff_fffc {
            Err(AxiError::RangeOverflow { addr, len: 4 })
        } else {
            Ok(WordRead { addr, stage: WordReadStage::Lower })
        }
    }
}

impl Script for WordRead {
    open spec fn well_formed(&self) -> bool {
        self.addr + 4 <= bus_end() && (self.stage is Upper ==> self.addr % 4 != 0)
    }

    open spec fn asks(&self) -> Asked {
        match self.stage {
            WordReadStage::Lower => Asked::Read { addr: word_base(self.addr), len: 4 },
            WordReadStage::Upper { .. } => Asked::Read {
                addr: (word_base(self.addr) + 4) as u32,
                len: 4,
            },
            WordReadStage::Done { .. } => Asked::Done,
        }
    }

    open spec fn after(self, read: Seq<u8>) -> WordRead {
        match self.stage {
            WordReadStage::Lower => if self.addr % 4 == 0 {
                WordRead { addr: self.addr, stage: WordReadStage::Done { word: word_at(read, 0) } }
            } else {
                WordRead { addr: self.addr, stage: WordReadStage::Upper { lo: word_at(read, 0) } }
            },
            WordReadStage::Upper { lo } => WordRead {
                addr: self.addr,
                stage: WordReadStage::Done {
                    word: spec_split_read(lo, word_at(read, 0), (self.addr % 4) as u32),
                },
            },
            WordReadStage::Done { .. } => self,
        }
    }

    open spec fn transfers_left(&self) -> nat {
        match self.stage {
            WordReadStage::Lower => if self.addr % 4 == 0 {
                1
            } else {
                2
            },
            WordReadStage::Upper { .. } => 1,
            WordReadStage::Done { .. } => 0,
        }
    }

    fn step(&self) -> (s: Step) {
        let base: u32 = self.addr - self.addr % 4;
        match self.stage {
            WordReadStage::Lower => Step::Read { addr: base, len: 4 },
            WordReadStage::Upper { .. } => Step::Read { addr: base + 4, len: 4 },
            WordReadStage::Done { .. } => Step::Done,
        }
    }

    fn advance(self, read: &[u8]) -> (next: WordRead) {
        let word = word_from_slice(read);
        let offset: u32 = self.addr % 4;
        match self.stage {
            WordReadStage::Lower => if offset == 0 {
                WordRead { addr: self.addr, stage: WordReadStage::Done { word } }
            } else {
                WordRead { addr: self.addr, stage: WordReadStage::Upper { lo: word } }
            },
            WordReadStage::Upper { lo } => WordRead {
                addr: self.addr,
                stage: WordReadStage::Done { word: split_read(lo, word, offset) },
            },
            WordReadStage::Done { .. } => self,
        }
    }
}

/// How far the writing of a word has come.
#[derive(Clone, Copy, Debug, PartialEq, Eq, Structural)]
pub enum WordWriteStage {
    /// The address is aligned: the value is to be written as one word.
    Whole,
    /// The word in which the first byte lies is to be read.
    ReadLower,
    /// That word was `lo`; the word after it is to be read.
    ReadUpper { lo: u32 },
    /// Both words were rebuilt around the value; the lower one is to be written.
    WriteLower { lo: u32, hi: u32 },
    /// The upper one is to be written.
    WriteUpper { hi: u32 },
    /// The value was written.
    Done,
}

/// Writing a word at any byte address: one aligned word, or a read-modify-write of the two
/// neighbouring words that the value straddles, the lower one first.
#[derive(Clone, Copy, Debug, PartialEq, Eq, Structural)]
pub struct WordWrite {
    pub addr: u32,
    pub value: u32,
    pub stage: WordWriteStage,
}

impl WordWrite {
    /// The script that writes `value` at `addr`, before its first transfer.
    pub open spec fn spec_new(addr: u32, value: u32) -> WordWrite {
        WordWrite {
            addr,
            value,
            stage: if addr % 4 == 0 {
                WordWriteStage::Whole
            } else {
                WordWriteStage::ReadLower
            },
        }
    }

    /// The script that writes `value` at `addr`. A word that would run past the end of the
    /// bus is refused.
    pub fn new(addr: u32, value: u32) -> (r: Result<WordWrite, AxiError>)
        ensures
            r is Ok <==> word_refusal(addr) is None,
            r matches Ok(script) ==> script == Self::spec_new(addr, value) && script.well_formed(),
            r matches Err(e) ==> word_refusal(addr) == Some(e),
    {
        if addr > 0xffff_fffc {
            Err(AxiError::RangeOverflow { addr, len: 4 })
        } else if addr % 4 == 0 {
            Ok(WordWrite { addr, value, stage: WordWriteStage::Whole })
        } else {
            Ok(WordWrite { addr, value, stage: WordWriteStage::ReadLower })
        }
    }

    /// This script at another stage.
    pub open spec fn at(self, stage: WordWriteStage) -> WordWrite {
        WordWrite { addr: self.addr, value: self.value, stage }
    }
}

impl Script for WordWrite {
    open spec fn well_formed(&self) -> bool {
        &&& self.addr + 4 <= bus_end()
        &&& self.stage is Whole <==> self.addr % 4 == 0 && !(self.stage is Done)
    }

    open spec fn asks(&self) -> Asked {
        match self.stage {
            WordWriteStage::Whole => Asked::Write { addr: self.addr, data: word_bytes(self.value) },
            WordWriteStage::ReadLower => Asked::Read { addr: word_base(self.addr), len: 4 },
            WordWriteStage::ReadUpper { .. } => Asked::Read {
                addr: (word_base(self.addr) + 4) as u32,
                len: 4,
            },
            WordWriteStage::WriteLower { lo, .. } => Asked::Write {
                addr: word_base(self.addr),
                data: word_bytes(lo),
            },
            WordWriteStage::WriteUpper { hi } => Asked::Write {
                addr: (word_base(self.addr) + 4) as u32,
                data: word_bytes(hi),
            },
            WordWriteStage::Done => Asked::Done,
        }
    }

    open spec fn after(self, read: Seq<u8>) -> WordWrite {
        match self.stage {
            WordWriteStage::Whole => self.at(WordWriteStage::Done),
            WordWriteStage::ReadLower => self.at(WordWriteStage::ReadUpper { lo: word_at(read, 0) }),
            WordWriteStage::ReadUpper { lo } => {
                let pair = spec_split_write(lo, word_at(read, 0), (self.addr % 4) as u32, self.value);
                self.at(WordWriteStage::WriteLower { lo: word_at(pair, 0), hi: word_at(pair, 4) })
            },
            WordWriteStage::WriteLower { hi, .. } => self.at(WordWriteStage::WriteUpper { hi }),
            WordWriteStage::WriteUpper { .. } => self.at(WordWriteStage::Done),
            WordWriteStage::Done => self,
        }
    }

    open spec fn transfers_left(&self) -> nat {
        match self.stage {
            WordWriteStage::Whole => 1,
            WordWriteStage::ReadLower => 4,
            WordWriteStage::ReadUpper { .. } => 3,
            WordWriteStage::WriteLower { .. } => 2,
            WordWriteStage::WriteUpper { .. } => 1,
            WordWriteStage::Done => 0,
        }
    }

    fn step(&self) -> (s: Step) {
        let base: u32 = self.addr - self.addr % 4;
        match self.stage {
            WordWriteStage::Whole => Step::Write { addr: self.addr, data: word_to_vec(self.value) },
            WordWriteStage::ReadLower => Step::Read { addr: base, len: 4 },
            WordWriteStage::ReadUpper { .. } => Step::Read { addr: base + 4, len: 4 },
            WordWriteStage::WriteLower { lo, .. } => Step::Write { addr: base, data: word_to_vec(lo) },
            WordWriteStage::WriteUpper { hi } => Step::Write {
                addr: base + 4,
                data: word_to_vec(hi),
            },
            WordWriteStage::Done => Step::Done,
        }
    }

    fn advance(self, read: &[u8]) -> (next: WordWrite) {
        let stage = match self.stage {
            WordWriteStage::Whole => WordWriteStage::Done,
            WordWriteStage::ReadLower => WordWriteStage::ReadUpper { lo: word_from_slice(read) },
            WordWriteStage::ReadUpper { lo } => {
                let hi = word_from_slice(read);
                let (new_lo, new_hi) = split_write(lo, hi, self.addr % 4, self.value);
                proof {
                    crate::word::lemma_pair_words(new_lo, new_hi);
                }
                WordWriteStage::WriteLower { lo: new_lo, hi: new_hi }
            },
            WordWriteStage::WriteLower { hi, .. } => WordWriteStage::WriteUpper { hi },
            WordWriteStage::WriteUpper { .. } => WordWriteStage::Done,
            WordWriteStage::Done => WordWriteStage::Done,
        };
        WordWrite { addr: self.addr, value: self.value, stage }
    }
}

/// How far the reading of a block has come.
#[derive(Clone, Copy, Debug, PartialEq, Eq, Structural)]
pub enum BlockReadStage {
    /// The window is to be read.
    Read,
    /// The window was read, or there was nothing to read.
    Done,
}

/// Reading a block of any length at any byte address: the window that encloses it is read
/// in one transfer, and the block is taken out of what was read.
#[derive(Clone, Copy, Debug, PartialEq, Eq, Structural)]
pub struct BlockRead {
    pub window: Window,
    /// Bytes in the block.
    pub len: usize,
    pub stage: BlockReadStage,
}

impl BlockRead {
    /// The script that reads `len` bytes at `addr`, before its first transfer.
    pub open spec fn spec_new(addr: u32, len: usize) -> BlockRead {
        BlockRead {
            window: spec_window(addr, len as nat),
            len,
            stage: if len == 0 {
                BlockReadStage::Done
            } else {
                BlockReadStage::Read
            },
        }
    }

    /// The script that reads `len` bytes at `addr`. A block that would run past the end of
    /// the bus is refused.
    pub fn new(addr: u32, len: usize) -> (r: Result<BlockRead, AxiError>)
        ensures
            r is Ok <==> block_refusal(addr, len as nat) is None,
            r matches Ok(script) ==> script == Self::spec_new(addr, len) && script.well_formed(),
            r matches Err(e) ==> block_refusal(addr, len as nat) == Some(e),
    {
        match enclosing_window(addr, len) {
            Ok(window) => Ok(
                BlockRead {
                    window,
                    len,
                    stage: if len == 0 {
                        BlockReadStage::Done
                    } else {
                        BlockReadStage::Read
                    },
                },
            ),
            Err(e) => Err(e),
        }
    }

    /// The block, taken out of what the read of the window returned.
    pub open spec fn block(self, window_bytes: Seq<u8>) -> Seq<u8> {
        if self.len == 0 {
            Seq::empty()
        } else {
            window_bytes.subrange(self.window.skip as int, self.window.skip + self.len)
        }
    }
}

impl Script for BlockRead {
    open spec fn well_formed(&self) -> bool {
        self.window.encloses(self.len as nat) && (self.stage is Read ==> self.len > 0)
    }

    open spec fn asks(&self) -> Asked {
        match self.stage {
            BlockReadStage::Read => Asked::Read { addr: self.window.start, len: self.window.len as nat },
            BlockReadStage::Done => Asked::Done,
        }
    }

    open spec fn after(self, read: Seq<u8>) -> BlockRead {
        BlockRead { window: self.window, len: self.len, stage: BlockReadStage::Done }
    }

    open spec fn transfers_left(&self) -> nat {
        match self.stage {
            BlockReadStage::Read => 1,
            BlockReadStage::Done => 0,
        }
    }

    fn step(&self) -> (s: Step) {
        match self.stage {
            BlockReadStage::Read => Step::Read { addr: self.window.start, len: self.window.len },
            BlockReadStage::Done => Step::Done,
        }
    }

    fn advance(self, read: &[u8]) -> (next: BlockRead) {
        BlockRead { window: self.window, len: self.len, stage: BlockReadStage::Done }
    }
}

/// How far the writing of a block has come.
#[derive(Clone, Copy, Debug, PartialEq, Eq, Structural)]
pub enum BlockWriteStage {
    /// The first word of the window is to be read.
    ReadHead,
    /// The last word of the window is to be read.
    ReadTail,
    /// The window is to be written.
    Write,
    /// The window was written, or there was nothing to write.
    Done,
}

/// Writing a block of any length at any byte address: the first and the last word of the
/// window that encloses it are read where the block covers them only in part, the window
/// is rebuilt around the block, and it is written in one transfer.
#[derive(Clone, Copy, Debug)]
pub struct BlockWrite<'a> {
    pub window: Window,
    pub data: &'a [u8],
    /// The first word of the window, once it was read.
    pub head: u32,
    /// The last word of the window, once it was read.
    pub tail: u32,
    pub stage: BlockWriteStage,
}

/// Whether a block of `n` bytes leaves some byte of the first word of its window `w`
/// uncovered.
pub open spec fn shares_head(w: Window, n: nat) -> bool {
    w.skip > 0 || (w.len == 4 && w.skip + n < 4)
}

/// Whether a block of `n` bytes leaves some byte of the last word of its window `w`
/// uncovered, where that is not the first word too.
pub open spec fn shares_tail(w: Window, n: nat) -> bool {
    w.len > 4 && w.skip + n < w.len
}

impl<'a> BlockWrite<'a> {
    /// The script that writes `data` at `addr`, before its first transfer.
    pub open spec fn spec_new(addr: u32, data: &'a [u8]) -> BlockWrite<'a> {
        let window = spec_window(addr, data@.len());
        BlockWrite {
            window,
            data,
            head: 0,
            tail: 0,
            stage: if data@.len() == 0 {
                BlockWriteStage::Done
            } else if shares_head(window, data@.len()) {
                BlockWriteStage::ReadHead
            } else if shares_tail(window, data@.len()) {
                BlockWriteStage::ReadTail
            } else {
                BlockWriteStage::Write
            },
        }
    }

    /// The script that writes `data` at `addr`. A block that would run past the end of the
    /// bus is refused.
    pub fn new(addr: u32, data: &'a [u8]) -> (r: Result<BlockWrite<'a>, AxiError>)
        ensures
            r is Ok <==> block_refusal(addr, data@.len()) is None,
            r matches Ok(script) ==> script == Self::spec_new(addr, data) && script.well_formed(),
            r matches Err(e) ==> block_refusal(addr, data@.len()) == Some(e),
    {
        let window = match enclosing_window(addr, data.len()) {
            Ok(window) => window,
            Err(e) => {
                return Err(e);
            },
        };
        let n = data.len();
        let stage = if n == 0 {
            BlockWriteStage::Done
        } else if window.skip > 0 || (window.len == 4 && window.skip + n < 4) {
            BlockWriteStage::ReadHead
        } else if window.len > 4 && window.skip + n < window.len {
            BlockWriteStage::ReadTail
        } else {
            BlockWriteStage::Write
        };
        Ok(BlockWrite { window, data, head: 0, tail: 0, stage })
    }

    /// The bytes that the script writes through its window.
    pub open spec fn image(self) -> Seq<u8> {
        window_image(self.window, word_bytes(self.head), word_bytes(self.tail), self.data@)
    }
}

impl<'a> Script for BlockWrite<'a> {
    open spec fn well_formed(&self) -> bool {
        &&& self.window.encloses(self.data@.len())
        &&& !(self.stage is Done) ==> self.data@.len() > 0
        &&& self.stage is ReadHead ==> shares_head(self.window, self.data@.len())
        &&& self.stage is ReadTail ==> shares_tail(self.window, self.data@.len())
    }

    open spec fn asks(&self) -> Asked {
        match self.stage {
            BlockWriteStage::ReadHead => Asked::Read { addr: self.window.start, len: 4 },
            BlockWriteStage::ReadTail => Asked::Read {
                addr: (self.window.start + self.window.len - 4) as u32,
                len: 4,
            },
            BlockWriteStage::Write => Asked::Write { addr: self.window.start, data: self.image() },
            BlockWriteStage::Done => Asked::Done,
        }
    }

    open spec fn after(self, read: Seq<u8>) -> BlockWrite<'a> {
        match self.stage {
            BlockWriteStage::ReadHead => BlockWrite {
                window: self.window,
                data: self.data,
                head: word_at(read, 0),
                tail: if self.window.len == 4 {
                    word_at(read, 0)
                } else {
                    self.tail
                },
                stage: if shares_tail(self.window, self.data@.len()) {
                    BlockWriteStage::ReadTail
                } else {
                    BlockWriteStage::Write
                },
            },
            BlockWriteStage::ReadTail => BlockWrite {
                window: self.window,
                data: self.data,
                head: self.head,
                tail: word_at(read, 0),
                stage: BlockWriteStage::Write,
            },
            BlockWriteStage::Write => BlockWrite {
                window: self.window,
                data: self.data,
                head: self.head,
                tail: self.tail,
                stage: BlockWriteStage::Done,
            },
            BlockWriteStage::Done => self,
        }
    }

    open spec fn transfers_left(&self) -> nat {
        match self.stage {
            BlockWriteStage::ReadHead => if shares_tail(self.window, self.data@.len()) {
                3
            } else {
                2
            },
            BlockWriteStage::ReadTail => 2,
            BlockWriteStage::Write => 1,
            BlockWriteStage::Done => 0,
        }
    }

    fn step(&self) -> (s: Step) {
        match self.stage {
            BlockWriteStage::ReadHead => Step::Read { addr: self.window.start, len: 4 },
            BlockWriteStage::ReadTail => Step::Read {
                addr: self.window.start + (self.window.len - 4) as u32,
                len: 4,
            },
            BlockWriteStage::Write => {
                let head = word_to_bytes(self.head);
                let tail = word_to_bytes(self.tail);
                Step::Write {
                    addr: self.window.start,
                    data: assemble(&self.window, &head, &tail, self.data),
                }
            },
            BlockWriteStage::Done => Step::Done,
        }
    }

    fn advance(self, read: &[u8]) -> (next: BlockWrite<'a>) {
        let n = self.data.len();
        let tail_shared = self.window.len > 4 && self.window.skip + n < self.window.len;
        match self.stage {
            BlockWriteStage::ReadHead => {
                let word = word_from_slice(read);
                BlockWrite {
                    window: self.window,
                    data: self.data,
                    head: word,
                    tail: if self.window.len == 4 {
                        word
                    } else {
                        self.tail
                    },
                    stage: if tail_shared {
                        BlockWriteStage::ReadTail
                    } else {
                        BlockWriteStage::Write
                    },
                }
            },
            BlockWriteStage::ReadTail => BlockWrite {
                window: self.window,
                data: self.data,
                head: self.head,
                tail: word_from_slice(read),
                stage: BlockWriteStage::Write,
            },
            BlockWriteStage::Write => BlockWrite {
                window: self.window,
                data: self.data,
                head: self.head,
                tail: self.tail,
                stage: BlockWriteStage::Done,
            },
            BlockWriteStage::Done => self,
        }
    }
}

/// The failure of the transport in `r`, if it is one.
pub open spec fn transport_failure<V>(r: Result<V, LuwenError>) -> Option<PciError> {
    match r {
        Err(LuwenError::PciError(e)) => Some(e),
        _ => None,
    }
}

/// Whether `r` is what reading the word at `addr` gives when the transfers returned
/// `reads`.
pub open spec fn word_read_result(addr: u32, reads: Seq<Seq<u8>>, r: Result<u32, LuwenError>) -> bool {
    let end = play(WordRead::spec_new(addr), reads);
    match r {
        Ok(word) => end.stage == (WordReadStage::Done { word }),
        Err(LuwenError::PciError(_)) => !(end.stage is Done),
        Err(_) => false,
    }
}

/// Whether `r` is what reading the word at `addr` from `chip` gave: the transfers of
/// `WordRead` reached the transport, one after the other, `r` is the word that the script
/// makes of what they returned, and a failure is the one with which the transport answered
/// the transfer at which the script stopped.
pub open spec fn word_read_by<T: ChipInterface>(chip: &T, addr: u32, r: Result<u32, LuwenError>) -> bool {
    exists|reads: Seq<Seq<u8>>|
        reads.len() <= 2 && #[trigger] word_read_result(addr, reads, r) && fits(
            WordRead::spec_new(addr),
            reads,
        ) && carried_out(chip, WordRead::spec_new(addr), reads, transport_failure(r))
}

/// Whether `chip` answers every read of the aligned word at `addr` with success and the
/// bytes of `word`.
pub open spec fn reads_as<T: ChipInterface>(chip: &T, addr: u32, word: u32) -> bool {
    forall|handed: Seq<u8>, back: Seq<u8>, result: Result<(), PciError>|
        #[trigger] chip.answers(Call::AxiRead { addr }, handed, back, result) && handed.len() == 4
            ==> result is Ok && back == word_bytes(word)
}

/// Whether `chip` answers every read of the aligned word at `addr` with `failure`.
pub open spec fn read_fails_as<T: ChipInterface>(chip: &T, addr: u32, failure: PciError) -> bool {
    forall|handed: Seq<u8>, back: Seq<u8>, result: Result<(), PciError>|
        #[trigger] chip.answers(Call::AxiRead { addr }, handed, back, result) && handed.len() == 4
            ==> result == Err::<(), PciError>(failure)
}

/// Reading an aligned word from a transport that answers with a word gives that word, and
/// from one that answers with a failure gives that failure: the reading cannot succeed
/// without the transport, make up a word, or hide what the transport said.
pub proof fn lemma_word_read_of<T: ChipInterface>(chip: &T, addr: u32, r: Result<u32, LuwenError>)
    requires
        addr % 4 == 0,
        word_read_by(chip, addr, r),
    ensures
        forall|word: u32| #[trigger] reads_as(chip, addr, word) ==> r == Ok::<u32, LuwenError>(word),
        forall|failure: PciError|
            #[trigger] read_fails_as(chip, addr, failure) ==> r == Err::<u32, LuwenError>(
                LuwenError::PciError(failure),
            ),
{
    let script = WordRead::spec_new(addr);
    let reads = choose|reads: Seq<Seq<u8>>|
        reads.len() <= 2 && #[trigger] word_read_result(addr, reads, r) && fits(script, reads)
            && carried_out(chip, script, reads, transport_failure(r));
    reveal_with_fuel(play, 3);
    reveal_with_fuel(reached, 3);
    reveal_with_fuel(fits, 3);
    assert(script.asks() == Asked::Read { addr, len: 4 });
    if reads.len() == 0 {
        assert(r is Err);
        let e = transport_failure(r)->Some_0;
        assert(step_failed(chip, script.asks(), e));
        let (handed, back) = choose|handed: Seq<u8>, back: Seq<u8>|
            #[trigger] chip.answers(Call::AxiRead { addr }, handed, back, Err(e)) && handed.len()
                == 4;
        assert forall|word: u32| reads_as(chip, addr, word) implies r == Ok::<u32, LuwenError>(
            word,
        ) by {
            assert(chip.answers(Call::AxiRead { addr }, handed, back, Err(e)));
        }
        assert forall|failure: PciError| read_fails_as(chip, addr, failure) implies r == Err::<
            u32,
            LuwenError,
        >(LuwenError::PciError(failure)) by {
            assert(chip.answers(Call::AxiRead { addr }, handed, back, Err(e)));
        }
    } else {
        let first = reads[0];
        assert(step_answered(chip, script.asks(), first));
        let (handed, result) = choose|handed: Seq<u8>, result: Result<(), PciError>|
            #[trigger] chip.answers(Call::AxiRead { addr }, handed, first, result) && result is Ok
                && handed.len() == 4;
        assert(script.after(first).asks() is Done);
        assert(reads.len() == 1) by {
            if reads.len() > 1 {
                assert(reads.drop_first().len() > 0);
                assert(step_answered(chip, script.after(first).asks(), reads.drop_first()[0]));
            }
        }
        assert(reads.drop_first().len() == 0);
        assert(play(script, reads) == script.after(first));
        assert(r == Ok::<u32, LuwenError>(word_at(first, 0)));
        assert forall|word: u32| reads_as(chip, addr, word) implies r == Ok::<u32, LuwenError>(
            word,
        ) by {
            assert(chip.answers(Call::AxiRead { addr }, handed, first, result));
            crate::word::lemma_word_of_bytes(word);
        }
        assert forall|failure: PciError| read_fails_as(chip, addr, failure) implies r == Err::<
            u32,
            LuwenError,
        >(LuwenError::PciError(failure)) by {
            assert(chip.answers(Call::AxiRead { addr }, handed, first, result));
        }
    }
}

/// Reads the word that starts at byte `addr` of the local bus: plays `WordRead` to `chip`.
pub fn axi_read32<T: ChipInterface>(chip: &T, addr: u32) -> (r: Result<u32, LuwenError>)
    ensures
        word_refusal(addr) matches Some(e) ==> r == Err::<u32, LuwenError>(refused(e)),
        word_refusal(addr) is None ==> done_or_transport(r),
        word_refusal(addr) is None ==> word_read_by(chip, addr, r),
{
    let script = match WordRead::new(addr) {
        Ok(script) => script,
        Err(e) => {
            return Err(LuwenError::from(e));
        },
    };
    let outcome = run(chip, script);
    let ghost reads = choose|reads: Seq<Seq<u8>>|
        reads.len() <= script.transfers_left() && #[trigger] played(script, reads, outcome)
            && carried_out(chip, script, reads, failure_of(outcome));
    match outcome {
        Ok(end) => match end.script.stage {
            WordReadStage::Done { word } => {
                assert(word_read_result(addr, reads, Ok(word)));
                Ok(word)
            },
            _ => vstd::pervasive::unreached(),
        },
        Err(e) => {
            assert(word_read_result(addr, reads, Err(LuwenError::PciError(e))));
            Err(LuwenError::PciError(e))
        },
    }
}

/// Whether `r` is what writing `value` at `addr` gives when the transfers returned `reads`.
pub open spec fn word_write_result(
    addr: u32,
    value: u32,
    reads: Seq<Seq<u8>>,
    r: Result<(), LuwenError>,
) -> bool {
    let end = play(WordWrite::spec_new(addr, value), reads);
    match r {
        Ok(()) => end.stage is Done,
        Err(LuwenError::PciError(_)) => !(end.stage is Done),
        Err(_) => false,
    }
}

/// Whether `r` is what writing `value` at `addr` to `chip` gave: the transfers of
/// `WordWrite` reached the transport, one after the other, as far as `r` says, and a
/// failure is the one with which the transport answered the transfer at which the script
/// stopped.
pub open spec fn word_written_by<T: ChipInterface>(
    chip: &T,
    addr: u32,
    value: u32,
    r: Result<(), LuwenError>,
) -> bool {
    exists|reads: Seq<Seq<u8>>|
        reads.len() <= 4 && #[trigger] word_write_result(addr, value, reads, r) && fits(
            WordWrite::spec_new(addr, value),
            reads,
        ) && carried_out(chip, WordWrite::spec_new(addr, value), reads, transport_failure(r))
}

/// Writes `value` as the word that starts at byte `addr` of the local bus: plays
/// `WordWrite` to `chip`.
pub fn axi_write32<T: ChipInterface>(chip: &T, addr: u32, value: u32) -> (r: Result<
    (),
    LuwenError,
>)
    ensures
        word_refusal(addr) matches Some(e) ==> r == Err::<(), LuwenError>(refused(e)),
        word_refusal(addr) is None ==> done_or_transport(r),
        word_refusal(addr) is None ==> word_written_by(chip, addr, value, r),
{
    let script = match WordWrite::new(addr, value) {
        Ok(script) => script,
        Err(e) => {
            return Err(LuwenError::from(e));
        },
    };
    let outcome = run(chip, script);
    let ghost reads = choose|reads: Seq<Seq<u8>>|
        reads.len() <= script.transfers_left() && #[trigger] played(script, reads, outcome)
            && carried_out(chip, script, reads, failure_of(outcome));
    match outcome {
        Ok(_) => {
            assert(word_write_result(addr, value, reads, Ok(())));
            Ok(())
        },
        Err(e) => {
            assert(word_write_result(addr, value, reads, Err(LuwenError::PciError(e))));
            Err(LuwenError::PciError(e))
        },
    }
}

/// Whether `r` and `data` are what reading `data.len()` bytes at `addr` gives when the
/// transfers returned `reads`: on success the block taken out of the window that was read,
/// and on failure the buffer as it was, `before`.
pub open spec fn block_read_result(
    addr: u32,
    before: Seq<u8>,
    reads: Seq<Seq<u8>>,
    r: Result<(), LuwenError>,
    data: Seq<u8>,
) -> bool {
    let script = BlockRead::spec_new(addr, before.len() as usize);
    match r {
        Ok(()) => play(script, reads).stage is Done && data == script.block(last_read(reads)),
        Err(LuwenError::PciError(_)) => !(play(script, reads).stage is Done) && data == before,
        Err(_) => false,
    }
}

/// Whether `r` and `data` are what reading into a buffer `before` at `addr` from `chip`
/// gave: the transfer of `BlockRead` reached the transport, `data` is the block taken out
/// of what it returned, and a failure is the one with which the transport answered.
pub open spec fn block_read_by<T: ChipInterface>(
    chip: &T,
    addr: u32,
    before: Seq<u8>,
    r: Result<(), LuwenError>,
    data: Seq<u8>,
) -> bool {
    exists|reads: Seq<Seq<u8>>|
        reads.len() <= 1 && #[trigger] block_read_result(addr, before, reads, r, data) && fits(
            BlockRead::spec_new(addr, before.len() as usize),
            reads,
        ) && carried_out(
            chip,
            BlockRead::spec_new(addr, before.len() as usize),
            reads,
            transport_failure(r),
        )
}

/// Reads `data.len()` bytes that start at byte `addr` of the local bus: plays `BlockRead`
/// to `chip` and takes the block out of the window. A refused range and a failed transfer
/// leave `data` as it was; a read of no bytes issues no transfer.
pub fn axi_read_block<T: ChipInterface>(chip: &T, addr: u32, data: &mut [u8]) -> (r: Result<
    (),
    LuwenError,
>)
    ensures
        final(data)@.len() == old(data)@.len(),
        block_refusal(addr, old(data)@.len()) matches Some(e) ==> r == Err::<(), LuwenError>(
            refused(e),
        ) && final(data)@ == old(data)@,
        block_refusal(addr, old(data)@.len()) is None ==> done_or_transport(r),
        block_refusal(addr, old(data)@.len()) is None ==> block_read_by(
            chip,
            addr,
            old(data)@,
            r,
            final(data)@,
        ),
        old(data)@.len() == 0 ==> r is Ok,
{
    let script = match BlockRead::new(addr, data.len()) {
        Ok(script) => script,
        Err(e) => {
            return Err(LuwenError::from(e));
        },
    };
    let outcome = run(chip, script);
    let ghost reads = choose|reads: Seq<Seq<u8>>|
        reads.len() <= script.transfers_left() && #[trigger] played(script, reads, outcome)
            && carried_out(chip, script, reads, failure_of(outcome));
    match outcome {
        Ok(end) => {
            if data.len() > 0 {
                proof {
                    reveal_with_fuel(play, 2);
                    reveal_with_fuel(fits, 2);
                }
                assert(reads.len() == 1);
                extract(end.last.as_slice(), script.window.skip, data);
            } else {
                assert(reads.len() == 0);
                assert(data@ =~= Seq::<u8>::empty());
            }
            assert(block_read_result(addr, old(data)@, reads, Ok(()), data@));
            Ok(())
        },
        Err(e) => {
            assert(block_read_result(addr, old(data)@, reads, Err(LuwenError::PciError(e)), data@));
            Err(LuwenError::PciError(e))
        },
    }
}

/// Whether `r` is what writing `data` at `addr` gives when the transfers returned `reads`.
pub open spec fn block_write_result(
    addr: u32,
    data: &[u8],
    reads: Seq<Seq<u8>>,
    r: Result<(), LuwenError>,
) -> bool {
    let end = play(BlockWrite::spec_new(addr, data), reads);
    match r {
        Ok(()) => end.stage is Done,
        Err(LuwenError::PciError(_)) => !(end.stage is Done),
        Err(_) => false,
    }
}

/// Whether `r` is what writing `data` at `addr` to `chip` gave: the transfers of
/// `BlockWrite` reached the transport, one after the other, as far as `r` says, and a
/// failure is the one with which the transport answered the transfer at which the script
/// stopped.
pub open spec fn block_written_by<T: ChipInterface>(
    chip: &T,
    addr: u32,
    data: &[u8],
    r: Result<(), LuwenError>,
) -> bool {
    exists|reads: Seq<Seq<u8>>|
        reads.len() <= 3 && #[trigger] block_write_result(addr, data, reads, r) && fits(
            BlockWrite::spec_new(addr, data),
            reads,
        ) && carried_out(chip, BlockWrite::spec_new(addr, data), reads, transport_failure(r))
}

/// Writes `data` from byte `addr` of the local bus on: plays `BlockWrite` to `chip`. A
/// write of no bytes issues no transfer.
pub fn axi_write_block<T: ChipInterface>(chip: &T, addr: u32, data: &[u8]) -> (r: Result<
    (),
    LuwenError,
>)
    ensures
        block_refusal(addr, data@.len()) matches Some(e) ==> r == Err::<(), LuwenError>(
            refused(e),
        ),
        block_refusal(addr, data@.len()) is None ==> done_or_transport(r),
        block_refusal(addr, data@.len()) is None ==> block_written_by(chip, addr, data, r),
        data@.len() == 0 ==> r is Ok,
{
    let script = match BlockWrite::new(addr, data) {
        Ok(script) => script,
        Err(e) => {
            return Err(LuwenError::from(e));
        },
    };
    let outcome = run(chip, script);
    let ghost reads = choose|reads: Seq<Seq<u8>>|
        reads.len() <= script.transfers_left() && #[trigger] played(script, reads, outcome)
            && carried_out(chip, script, reads, failure_of(outcome));
    match outcome {
        Ok(_) => {
            assert(block_write_result(addr, data, reads, Ok(())));
            Ok(())
        },
        Err(e) => {
            assert(block_write_result(addr, data, reads, Err(LuwenError::PciError(e))));
            Err(LuwenError::PciError(e))
        },
    }
}

} // verus!
