//! Registers by name.
//!
//! The names and addresses come from a chip's register map, which this layer does not read:
//! whoever has it defines the registers here, and access by name looks them up. A name that
//! was never defined is the caller's mistake and is reported as an addressing error, before
//! anything reaches the transport.

use vstd::prelude::*;
use crate::access::{axi_read32, axi_write32, done_or_transport, refused, word_read_by,
    word_refusal, word_written_by};
use crate::address::AxiAddress;
use crate::chip_interface::ChipInterface;
use crate::error::{AxiError, LuwenError};

verus! {

/// The address under which `name` stands in `entries`: that of the first entry of that
/// name.
pub open spec fn lookup(entries: Seq<(Seq<char>, AxiAddress)>, name: Seq<char>) -> Option<
    AxiAddress,
>
    decreases entries.len(),
{
    if entries.len() == 0 {
        None
    } else if entries[0].0 == name {
        Some(entries[0].1)
    } else {
        lookup(entries.drop_first(), name)
    }
}

/// Adding an entry at the end changes no lookup that found something, and answers the
/// lookup of its own name if nothing did before.
pub proof fn lemma_lookup_push(
    entries: Seq<(Seq<char>, AxiAddress)>,
    added: (Seq<char>, AxiAddress),
    name: Seq<char>,
)
    ensures
        lookup(entries.push(added), name) == match lookup(entries, name) {
            Some(address) => Some(address),
            None => if added.0 == name {
                Some(added.1)
            } else {
                None
            },
        },
    decreases entries.len(),
{
    let longer = entries.push(added);
    if entries.len() == 0 {
        assert(longer.drop_first().len() == 0);
        reveal_with_fuel(lookup, 2);
    } else {
        assert(longer[0] == entries[0]);
        assert(longer.drop_first() =~= entries.drop_first().push(added));
        lemma_lookup_push(entries.drop_first(), added, name);
    }
}

/// One register of a register map.
struct Register {
    name: String,
    address: AxiAddress,
}

/// The registers of one chip, by name.
pub struct RegisterMap {
    registers: Vec<Register>,
}

impl RegisterMap {
    /// The definitions, in the order in which they were made.
    pub closed spec fn entries(&self) -> Seq<(Seq<char>, AxiAddress)> {
        Seq::new(
            self.registers@.len(),
            |i: int| (self.registers@[i].name@, self.registers@[i].address),
        )
    }

    /// The address of the register called `name`, if one was defined.
    pub open spec fn spec_resolve(&self, name: Seq<char>) -> Option<AxiAddress> {
        lookup(self.entries(), name)
    }

    /// A map that defines no register.
    pub fn new() -> (map: RegisterMap)
        ensures
            map.entries() == Seq::<(Seq<char>, AxiAddress)>::empty(),
            forall|name: Seq<char>| map.spec_resolve(name) is None,
    {
        let map = RegisterMap { registers: Vec::new() };
        assert(map.entries() =~= Seq::<(Seq<char>, AxiAddress)>::empty());
        map
    }

    /// Defines the register `name` at `address`. A name that is defined already keeps the
    /// address it has.
    pub fn define(&mut self, name: &str, address: AxiAddress)
        ensures
            final(self).entries() == old(self).entries().push((name@, address)),
            final(self).spec_resolve(name@) == match old(self).spec_resolve(name@) {
                Some(earlier) => Some(earlier),
                None => Some(address),
            },
            forall|other: Seq<char>|
                other != name@ ==> final(self).spec_resolve(other) == old(self).spec_resolve(other),
    {
        let ghost before = self.entries();
        self.registers.push(Register { name: name.to_owned(), address });
        proof {
            assert(self.entries() =~= before.push((name@, address)));
            lemma_lookup_push(before, (name@, address), name@);
            assert forall|other: Seq<char>| other != name@ implies self.spec_resolve(other)
                == lookup(before, other) by {
                lemma_lookup_push(before, (name@, address), other);
            }
        }
    }

    /// Finds the address of the register called `name`.
    pub fn resolve(&self, name: &str) -> (r: Result<AxiAddress, AxiError>)
        ensures
            r is Ok <==> self.spec_resolve(name@) is Some,
            r matches Ok(address) ==> self.spec_resolve(name@) == Some(address),
            r matches Err(e) ==> e == AxiError::UnknownRegister,
    {
        let wanted: String = name.to_owned();
        let ghost all = self.entries();
        let mut i: usize = 0;
        assert(all.subrange(0, all.len() as int) =~= all);
        while i < self.registers.len()
            invariant
                i <= self.registers@.len(),
                all == self.entries(),
                wanted@ == name@,
                lookup(all, name@) == lookup(all.subrange(i as int, all.len() as int), name@),
            decreases self.registers@.len() - i,
        {
            let ghost ahead = all.subrange(i as int, all.len() as int);
            assert(ahead[0] == all[i as int]);
            assert(ahead.drop_first() =~= all.subrange(i + 1, all.len() as int));
            if self.registers[i].name == wanted {
                return Ok(self.registers[i].address);
            }
            i += 1;
        }
        Err(AxiError::UnknownRegister)
    }
}

/// Why the register called `name` cannot be accessed through `map`, if it cannot: no such
/// register is defined, or the word at its address cannot be addressed.
pub open spec fn register_refusal(map: RegisterMap, name: Seq<char>) -> Option<AxiError> {
    match map.spec_resolve(name) {
        None => Some(AxiError::UnknownRegister),
        Some(address) => word_refusal(address.addr),
    }
}

/// Reads the register called `name`: the word at the address under which the name stands
/// in `map`, as `axi_read32` reads it from `chip`.
pub fn axi_sread32<T: ChipInterface>(chip: &T, map: &RegisterMap, name: &str) -> (r: Result<
    u32,
    LuwenError,
>)
    ensures
        register_refusal(*map, name@) matches Some(e) ==> r == Err::<u32, LuwenError>(refused(e)),
        register_refusal(*map, name@) is None ==> done_or_transport(r),
        map.spec_resolve(name@) matches Some(address) ==> (word_refusal(address.addr) is None
            ==> word_read_by(chip, address.addr, r)),
{
    match map.resolve(name) {
        Ok(address) => axi_read32(chip, address.addr),
        Err(e) => Err(LuwenError::from(e)),
    }
}

/// Writes `value` to the register called `name`: to the word at the address under which
/// the name stands in `map`, as `axi_write32` writes it to `chip`.
pub fn axi_swrite32<T: ChipInterface>(chip: &T, map: &RegisterMap, name: &str, value: u32) -> (r:
    Result<(), LuwenError>)
    ensures
        register_refusal(*map, name@) matches Some(e) ==> r == Err::<(), LuwenError>(refused(e)),
        register_refusal(*map, name@) is None ==> done_or_transport(r),
        map.spec_resolve(name@) matches Some(address) ==> (word_refusal(address.addr) is None
            ==> word_written_by(chip, address.addr, value, r)),
{
    match map.resolve(name) {
        Ok(address) => axi_write32(chip, address.addr, value),
        Err(e) => Err(LuwenError::from(e)),
    }
}

} // verus!
