//! Walking the Ethernet mesh without walking in circles.
//!
//! Remote chips are found by asking each chip that is reached for its neighbours. A mesh
//! may close on itself, as a ring or a torus does, so the walk keeps every coordinate it
//! has met and hands each out once.

use vstd::prelude::*;
use crate::address::EthAddr;

verus! {

/// The coordinates among `found` that are not in `known`, each once, in the order in which
/// they first appear.
pub open spec fn fresh(known: Seq<EthAddr>, found: Seq<EthAddr>) -> Seq<EthAddr>
    decreases found.len(),
{
    if found.len() == 0 {
        Seq::empty()
    } else if known.contains(found[0]) {
        fresh(known, found.drop_first())
    } else {
        seq![found[0]] + fresh(known.push(found[0]), found.drop_first())
    }
}

/// After the fresh coordinates of `found` have joined `known`, every coordinate of `found`
/// is known, and nothing is known twice that was not before.
pub proof fn lemma_fresh(known: Seq<EthAddr>, found: Seq<EthAddr>)
    requires
        known.no_duplicates(),
    ensures
        (known + fresh(known, found)).no_duplicates(),
        forall|i: int| 0 <= i < found.len() ==> (known + fresh(known, found)).contains(found[i]),
        forall|a: EthAddr|
            (known + fresh(known, found)).contains(a) ==> known.contains(a) || found.contains(a),
    decreases found.len(),
{
    let all = known + fresh(known, found);
    if found.len() == 0 {
        assert(all =~= known);
    } else {
        let rest = found.drop_first();
        if known.contains(found[0]) {
            lemma_fresh(known, rest);
            assert forall|i: int| 0 <= i < found.len() implies all.contains(found[i]) by {
                if i == 0 {
                    let at = choose|at: int| 0 <= at < known.len() && known[at] == found[0];
                    assert(all[at] == found[0]);
                } else {
                    assert(rest[i - 1] == found[i]);
                }
            }
            assert forall|a: EthAddr| all.contains(a) implies known.contains(a) || found.contains(
                a,
            ) by {
                if !known.contains(a) {
                    let at = choose|at: int| 0 <= at < rest.len() && rest[at] == a;
                    assert(found[at + 1] == a);
                }
            }
        } else {
            let more = known.push(found[0]);
            assert(more.no_duplicates()) by {
                assert forall|i: int, j: int| 0 <= i < j < more.len() implies more[i] != more[j] by {
                    if j == known.len() {
                        assert(known[i] == more[i]);
                    }
                }
            }
            lemma_fresh(more, rest);
            assert(all =~= more + fresh(more, rest));
            assert forall|i: int| 0 <= i < found.len() implies all.contains(found[i]) by {
                if i == 0 {
                    assert(all[known.len() as int] == found[0]);
                } else {
                    assert(rest[i - 1] == found[i]);
                }
            }
            assert forall|a: EthAddr| all.contains(a) implies known.contains(a) || found.contains(
                a,
            ) by {
                if !known.contains(a) {
                    if a == found[0] {
                    } else {
                        assert(more.contains(a) || rest.contains(a));
                        if more.contains(a) {
                            let at = choose|at: int| 0 <= at < more.len() && more[at] == a;
                            assert(at < known.len());
                            assert(known[at] == a);
                        } else {
                            let at = choose|at: int| 0 <= at < rest.len() && rest[at] == a;
                            assert(found[at + 1] == a);
                        }
                    }
                }
            }
        }
    }
}

/// A walk over the mesh from one chip.
pub struct MeshWalk {
    /// The chip that is reached without the mesh.
    origin: EthAddr,
    /// Every other coordinate met so far, in the order of meeting.
    found: Vec<EthAddr>,
    /// How many of `found` were handed out.
    handed: usize,
}

/// Whether `addr` is `origin` or one of `found`.
fn is_known(origin: EthAddr, found: &Vec<EthAddr>, addr: EthAddr) -> (b: bool)
    ensures
        b == (seq![origin] + found@).contains(addr),
{
    let ghost met = seq![origin] + found@;
    if origin == addr {
        assert(met[0] == addr);
        return true;
    }
    let mut i: usize = 0;
    while i < found.len()
        invariant
            i <= found@.len(),
            origin != addr,
            met == seq![origin] + found@,
            forall|j: int| 0 <= j < i ==> found@[j] != addr,
        decreases found@.len() - i,
    {
        if found[i] == addr {
            assert(met[i + 1] == addr);
            return true;
        }
        i += 1;
    }
    assert forall|j: int| 0 <= j < met.len() implies met[j] != addr by {
        if j > 0 {
            assert(met[j] == found@[j - 1]);
        }
    }
    false
}

impl MeshWalk {
    #[verifier::type_invariant]
    spec fn well_formed(self) -> bool {
        (seq![self.origin] + self.found@).no_duplicates() && self.handed <= self.found@.len()
    }

    /// Every coordinate met so far, the origin first, in the order of meeting.
    pub closed spec fn met(&self) -> Seq<EthAddr> {
        seq![self.origin] + self.found@
    }

    /// How many of the coordinates met are dealt with: the origin, and those handed out.
    pub closed spec fn dealt(&self) -> nat {
        (self.handed + 1) as nat
    }

    /// The coordinates that wait to be handed out, in order.
    pub open spec fn pending(&self) -> Seq<EthAddr> {
        self.met().subrange(self.dealt() as int, self.met().len() as int)
    }

    /// How many coordinates wait to be handed out. No coordinate is met twice, so none is
    /// handed out twice; the origin is the first that was met and is never handed out.
    pub fn pending_len(&self) -> (n: usize)
        ensures
            n == self.pending().len(),
            self.met().no_duplicates(),
            1 <= self.dealt() <= self.met().len(),
    {
        proof {
            use_type_invariant(self);
        }
        self.found.len() - self.handed
    }

    /// Starts a walk at `origin`, the chip that is reached without the mesh. It counts as
    /// dealt with and is never handed out.
    pub fn new(origin: EthAddr) -> (walk: MeshWalk)
        ensures
            walk.met() == seq![origin],
            walk.dealt() == 1,
    {
        let found: Vec<EthAddr> = Vec::new();
        assert(seq![origin] + found@ =~= seq![origin]);
        MeshWalk { origin, found, handed: 0 }
    }

    /// Whether `addr` was met already.
    pub fn has_met(&self, addr: EthAddr) -> (b: bool)
        ensures
            b == self.met().contains(addr),
    {
        is_known(self.origin, &self.found, addr)
    }

    /// Takes note of the neighbours that a chip reported. Those not met before join the end
    /// of the walk, each once; those met before change nothing. Returns how many joined.
    pub fn discover(&mut self, neighbours: &[EthAddr]) -> (joined: usize)
        ensures
            final(self).met() == old(self).met() + fresh(old(self).met(), neighbours@),
            final(self).dealt() == old(self).dealt(),
            joined == fresh(old(self).met(), neighbours@).len(),
            forall|i: int| 0 <= i < neighbours@.len() ==> final(self).met().contains(neighbours@[i]),
            final(self).met().no_duplicates(),
    {
        proof {
            use_type_invariant(&*self);
            lemma_fresh(self.met(), neighbours@);
        }
        let origin = self.origin;
        let handed = self.handed;
        let ghost before = seq![origin] + self.found@;
        self.handed = 0;
        let mut found: Vec<EthAddr> = Vec::new();
        std::mem::swap(&mut found, &mut self.found);
        let mut joined: usize = 0;
        let mut i: usize = 0;
        assert(neighbours@.subrange(0, neighbours@.len() as int) =~= neighbours@);
        while i < neighbours.len()
            invariant
                i <= neighbours@.len(),
                handed <= found@.len(),
                (seq![origin] + found@).no_duplicates(),
                found@.len() + 1 == before.len() + joined,
                joined <= i,
                (seq![origin] + found@) + fresh(
                    seq![origin] + found@,
                    neighbours@.subrange(i as int, neighbours@.len() as int),
                ) == before + fresh(before, neighbours@),
            decreases neighbours@.len() - i,
        {
            let addr = neighbours[i];
            let ghost ahead = neighbours@.subrange(i as int, neighbours@.len() as int);
            let ghost met_before = seq![origin] + found@;
            assert(ahead[0] == addr);
            assert(ahead.drop_first() =~= neighbours@.subrange(i + 1, neighbours@.len() as int));
            if !is_known(origin, &found, addr) {
                found.push(addr);
                joined += 1;
                proof {
                    let met_now = seq![origin] + found@;
                    assert(met_now =~= met_before.push(addr));
                    assert forall|a: int, b: int| 0 <= a < b < met_now.len() implies met_now[a]
                        != met_now[b] by {
                        if b == met_before.len() {
                            assert(met_before[a] == met_now[a]);
                        }
                    }
                    assert(met_before + fresh(met_before, ahead) =~= met_now + fresh(
                        met_now,
                        ahead.drop_first(),
                    ));
                }
            }
            i += 1;
        }
        proof {
            assert(neighbours@.subrange(i as int, neighbours@.len() as int) =~= Seq::<EthAddr>::empty());
            assert(seq![origin] + found@ =~= before + fresh(before, neighbours@));
        }
        self.found = found;
        self.handed = handed;
        joined
    }

    /// Hands out the next coordinate that waits, if one does. What is handed out is dealt
    /// with from then on.
    pub fn next(&mut self) -> (r: Option<EthAddr>)
        ensures
            final(self).met() == old(self).met(),
            old(self).pending().len() == 0 ==> r is None && final(self).dealt() == old(self).dealt(),
            old(self).pending().len() > 0 ==> r == Some(old(self).pending()[0]),
            old(self).pending().len() > 0 ==> final(self).dealt() == old(self).dealt() + 1,
            r matches Some(a) ==> a == old(self).met()[old(self).dealt() as int],
            final(self).met().no_duplicates(),
            1 <= final(self).dealt() <= final(self).met().len(),
    {
        proof {
            use_type_invariant(&*self);
        }
        if self.handed < self.found.len() {
            let addr = self.found[self.handed];
            self.handed += 1;
            Some(addr)
        } else {
            None
        }
    }
}

} // verus!
