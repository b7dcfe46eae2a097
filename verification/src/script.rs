//! Scripts: bus operations as plain state machines, and the one function that plays them
//! to a transport.
//!
//! A script says which transfer it wants next and, given what a read returned, how it goes
//! on. It touches no hardware, so what it asks for and what it makes of the answers can be
//! stated exactly. `run` is the only place where the transfers of a script reach a
//! transport; it adds nothing of its own, repeats nothing, and stops at the first failure.

use vstd::prelude::*;
use crate::chip_interface::{Call, ChipInterface};
use crate::error::PciError;
use crate::window::bus_end;

verus! {

/// What a script asks for next.
#[derive(Debug, PartialEq, Eq)]
pub enum Step {
    /// Read `len` bytes at `addr`.
    Read { addr: u32, len: usize },
    /// Write `data` at `addr`.
    Write { addr: u32, data: Vec<u8> },
    /// Nothing more: the script is over.
    Done,
}

/// What a script asks for next, as a mathematical value: the data of a write is a sequence.
pub enum Asked {
    Read { addr: u32, len: nat },
    Write { addr: u32, data: Seq<u8> },
    Done,
}

impl Step {
    /// This step as a mathematical value.
    pub open spec fn view(&self) -> Asked {
        match self {
            Step::Read { addr, len } => Asked::Read { addr: *addr, len: *len as nat },
            Step::Write { addr, data } => Asked::Write { addr: *addr, data: data@ },
            Step::Done => Asked::Done,
        }
    }
}

impl Asked {
    /// Whether this step is one that the bus can carry: a transfer of whole words, not
    /// empty, that starts on a word boundary and ends on the bus.
    pub open spec fn whole_words(self) -> bool {
        match self {
            Asked::Read { addr, len } => addr % 4 == 0 && len % 4 == 0 && len > 0 && addr + len
                <= bus_end(),
            Asked::Write { addr, data } => addr % 4 == 0 && data.len() % 4 == 0 && data.len() > 0
                && addr + data.len() <= bus_end(),
            Asked::Done => true,
        }
    }

    /// Whether `read` can be what the transfer of this step returned: as many bytes as a
    /// read asked for, and none after a write.
    pub open spec fn answered_by(self, read: Seq<u8>) -> bool {
        match self {
            Asked::Read { len, .. } => read.len() == len,
            Asked::Write { .. } => read.len() == 0,
            Asked::Done => false,
        }
    }
}

/// A bus operation as a state machine.
pub trait Script: Sized {
    /// Whether this is a state that the script can be in.
    spec fn well_formed(&self) -> bool;

    /// What the script asks for next.
    spec fn asks(&self) -> Asked;

    /// The state that follows once the transfer asked for is done. `read` is what a read
    /// returned; after a write it is empty.
    spec fn after(self, read: Seq<u8>) -> Self;

    /// The most transfers that the script can still ask for.
    spec fn transfers_left(&self) -> nat;

    /// What the script asks for next. Every transfer is of whole words, and a script is
    /// over exactly when it has no transfers left.
    fn step(&self) -> (s: Step)
        requires
            self.well_formed(),
        ensures
            s@ == self.asks(),
            s@.whole_words(),
            s is Done <==> self.transfers_left() == 0,
    ;

    /// Goes on after the transfer asked for is done.
    fn advance(self, read: &[u8]) -> (next: Self)
        requires
            self.well_formed(),
            self.asks().answered_by(read@),
        ensures
            next == self.after(read@),
            next.well_formed(),
            next.transfers_left() < self.transfers_left(),
    ;
}

/// The state that `script` is in after its transfers, in order, returned `reads` (a write
/// takes its place in `reads` too, with nothing read).
pub open spec fn play<S: Script>(script: S, reads: Seq<Seq<u8>>) -> S
    decreases reads.len(),
{
    if reads.len() == 0 {
        script
    } else {
        play(script.after(reads[0]), reads.drop_first())
    }
}

/// Playing over `reads` and then one more transfer is going on once from where `reads`
/// led.
pub proof fn lemma_play_push<S: Script>(script: S, reads: Seq<Seq<u8>>, read: Seq<u8>)
    ensures
        play(script, reads.push(read)) == play(script, reads).after(read),
    decreases reads.len(),
{
    let longer = reads.push(read);
    if reads.len() == 0 {
        assert(longer[0] == read);
        assert(longer.drop_first().len() == 0);
        reveal_with_fuel(play, 2);
    } else {
        assert(longer[0] == reads[0]);
        assert(longer.drop_first() =~= reads.drop_first().push(read));
        lemma_play_push(script.after(reads[0]), reads.drop_first(), read);
    }
}

/// Whether `reads` can be what the transfers of `script` returned, in order: each has as
/// many bytes as the read that it answers asked for, and none where it stands for a write.
pub open spec fn fits<S: Script>(script: S, reads: Seq<Seq<u8>>) -> bool
    decreases reads.len(),
{
    reads.len() == 0 || (script.asks().answered_by(reads[0]) && fits(
        script.after(reads[0]),
        reads.drop_first(),
    ))
}

/// Reads that fit a script still do when one more joins them that fits the step the script
/// has come to.
pub proof fn lemma_fits_push<S: Script>(script: S, reads: Seq<Seq<u8>>, read: Seq<u8>)
    requires
        fits(script, reads),
        play(script, reads).asks().answered_by(read),
    ensures
        fits(script, reads.push(read)),
    decreases reads.len(),
{
    let longer = reads.push(read);
    if reads.len() == 0 {
        assert(longer[0] == read);
        assert(longer.drop_first().len() == 0);
        reveal_with_fuel(fits, 2);
    } else {
        assert(longer[0] == reads[0]);
        assert(longer.drop_first() =~= reads.drop_first().push(read));
        lemma_fits_push(script.after(reads[0]), reads.drop_first(), read);
    }
}

/// Whether `chip` carried out the transfer `asked` and `read` is what came of it: the
/// transport answered that very read, of a buffer of the length asked for, or that very
/// write, of that very data, with success, and `read` is the buffer as a read handed it
/// back.
pub open spec fn step_answered<T: ChipInterface>(chip: &T, asked: Asked, read: Seq<u8>) -> bool {
    match asked {
        Asked::Read { addr, len } => exists|handed: Seq<u8>, result: Result<(), PciError>|
            #[trigger] chip.answers(Call::AxiRead { addr }, handed, read, result) && result is Ok
                && handed.len() == len,
        Asked::Write { addr, data } => exists|result: Result<(), PciError>|
            #[trigger] chip.answers(Call::AxiWrite { addr }, data, data, result) && result is Ok,
        Asked::Done => false,
    }
}

/// Whether `chip` failed the transfer `asked` with `failure`: the transport answered that
/// very read, or that very write of that very data, with this failure.
pub open spec fn step_failed<T: ChipInterface>(chip: &T, asked: Asked, failure: PciError) -> bool {
    match asked {
        Asked::Read { addr, len } => exists|handed: Seq<u8>, back: Seq<u8>|
            #[trigger] chip.answers(Call::AxiRead { addr }, handed, back, Err(failure))
                && handed.len() == len,
        Asked::Write { addr, data } => chip.answers(Call::AxiWrite { addr }, data, data, Err(failure)),
        Asked::Done => false,
    }
}

/// Whether the transfers of `script` reached `chip` and `reads` is what came of them, in
/// order: each transfer that the script asked for, up to the last of `reads`, is one that
/// the transport answered with success.
pub open spec fn reached<T: ChipInterface, S: Script>(chip: &T, script: S, reads: Seq<Seq<u8>>) -> bool
    decreases reads.len(),
{
    reads.len() == 0 || (step_answered(chip, script.asks(), reads[0]) && reached(
        chip,
        script.after(reads[0]),
        reads.drop_first(),
    ))
}

/// Transfers that reached the transport still did when one more joins them that the
/// transport answered at the step the script has come to.
pub proof fn lemma_reached_push<T: ChipInterface, S: Script>(
    chip: &T,
    script: S,
    reads: Seq<Seq<u8>>,
    read: Seq<u8>,
)
    requires
        reached(chip, script, reads),
        step_answered(chip, play(script, reads).asks(), read),
    ensures
        reached(chip, script, reads.push(read)),
    decreases reads.len(),
{
    let longer = reads.push(read);
    if reads.len() == 0 {
        assert(longer[0] == read);
        assert(longer.drop_first().len() == 0);
        reveal_with_fuel(reached, 2);
    } else {
        assert(longer[0] == reads[0]);
        assert(longer.drop_first() =~= reads.drop_first().push(read));
        lemma_reached_push(chip, script.after(reads[0]), reads.drop_first(), read);
    }
}

/// Whether `script` was carried out on `chip` with `reads` as what its transfers returned:
/// all of them reached the transport, and where the transport failed, it failed the
/// transfer that the script had come to after them, with `failure`.
pub open spec fn carried_out<T: ChipInterface, S: Script>(
    chip: &T,
    script: S,
    reads: Seq<Seq<u8>>,
    failure: Option<PciError>,
) -> bool {
    &&& reached(chip, script, reads)
    &&& failure matches Some(e) ==> step_failed(chip, play(script, reads).asks(), e)
}

/// The failure in `r`, if it is one.
pub open spec fn failure_of<V>(r: Result<V, PciError>) -> Option<PciError> {
    match r {
        Ok(_) => None,
        Err(e) => Some(e),
    }
}

/// What the last transfer returned: the last of `reads`, or nothing if there was no
/// transfer.
pub open spec fn last_read(reads: Seq<Seq<u8>>) -> Seq<u8> {
    if reads.len() == 0 {
        Seq::empty()
    } else {
        reads.last()
    }
}

/// How playing a script ended: the state it reached, and what its last transfer returned.
#[derive(Debug, PartialEq, Eq)]
pub struct Played<S> {
    pub script: S,
    pub last: Vec<u8>,
}

/// Whether `r` is what playing `script` to a transport gives when its transfers returned
/// `reads`: the state that the script reached, if they brought it to its end, and the
/// failure of the transport if it ended the script before that.
pub open spec fn played<S: Script>(script: S, reads: Seq<Seq<u8>>, r: Result<Played<S>, PciError>) -> bool {
    &&& fits(script, reads)
    &&& match r {
        Ok(end) => {
            &&& end.script == play(script, reads)
            &&& end.script.asks() is Done
            &&& end.script.well_formed()
            &&& end.last@ == last_read(reads)
        },
        Err(_) => !(play(script, reads).asks() is Done),
    }
}

/// Plays `script` to `chip`: each transfer that the script asks for is handed to the
/// transport as it is, and what a read returns is handed to the script. The first failure
/// of the transport ends the script and is returned; nothing is tried again.
///
/// So there are reads such that every transfer the script asked for over them was answered
/// by the transport with success, these reads are what came back, the result is the state
/// the script reached over them, and a failure is the one with which the transport answered
/// the transfer that came next.
pub fn run<T: ChipInterface, S: Script>(chip: &T, script: S) -> (r: Result<Played<S>, PciError>)
    requires
        script.well_formed(),
    ensures
        exists|reads: Seq<Seq<u8>>|
            reads.len() <= script.transfers_left() && #[trigger] played(script, reads, r)
                && carried_out(chip, script, reads, failure_of(r)),
        script.transfers_left() == 0 ==> r is Ok,
{
    let ghost start = script;
    let ghost mut reads: Seq<Seq<u8>> = Seq::empty();
    let mut current = script;
    let mut last: Vec<u8> = Vec::new();
    loop
        invariant
            start == script,
            current.well_formed(),
            current == play(start, reads),
            fits(start, reads),
            reached(chip, start, reads),
            last@ == last_read(reads),
            reads.len() + current.transfers_left() <= start.transfers_left(),
        decreases current.transfers_left(),
    {
        match current.step() {
            Step::Done => {
                let end = Played { script: current, last };
                assert(played(start, reads, Ok(end)));
                return Ok(end);
            },
            Step::Read { addr, len } => {
                let mut buffer: Vec<u8> = vec![0u8; len];
                let ghost handed = buffer@;
                let answer = chip.axi_read(addr, buffer.as_mut_slice());
                match answer {
                    Ok(_) => {
                        proof {
                            assert(chip.answers(Call::AxiRead { addr }, handed, buffer@, answer));
                            assert(step_answered(chip, current.asks(), buffer@));
                            lemma_play_push(start, reads, buffer@);
                            lemma_fits_push(start, reads, buffer@);
                            lemma_reached_push(chip, start, reads, buffer@);
                            reads = reads.push(buffer@);
                        }
                        current = current.advance(buffer.as_slice());
                        last = buffer;
                    },
                    Err(e) => {
                        proof {
                            assert(chip.answers(Call::AxiRead { addr }, handed, buffer@, Err(e)));
                            assert(step_failed(chip, current.asks(), e));
                            assert(played(start, reads, Err::<Played<S>, PciError>(e)));
                        }
                        return Err(e);
                    },
                }
            },
            Step::Write { addr, data } => {
                let answer = chip.axi_write(addr, data.as_slice());
                match answer {
                    Ok(_) => {
                        let nothing: Vec<u8> = Vec::new();
                        proof {
                            assert(chip.answers(Call::AxiWrite { addr }, data@, data@, answer));
                            assert(step_answered(chip, current.asks(), nothing@));
                            lemma_play_push(start, reads, nothing@);
                            lemma_fits_push(start, reads, nothing@);
                            lemma_reached_push(chip, start, reads, nothing@);
                            reads = reads.push(nothing@);
                        }
                        current = current.advance(nothing.as_slice());
                        last = nothing;
                    },
                    Err(e) => {
                        proof {
                            assert(chip.answers(Call::AxiWrite { addr }, data@, data@, Err(e)));
                            assert(step_failed(chip, current.asks(), e));
                            assert(played(start, reads, Err::<Played<S>, PciError>(e)));
                        }
                        return Err(e);
                    },
                }
            },
        }
    }
}

} // verus!
