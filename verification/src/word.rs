//! Bus words and their bytes.
//!
//! The bus moves 32-bit words whose bytes sit in memory least significant first. This module
//! fixes that layout and rebuilds, from aligned words alone, a word that starts at any byte.

use vstd::prelude::*;

verus! {

/// Bytes in one bus word.
pub const WORD_BYTES: u32 = 4;

/// Byte `k` of `w`, counting from the least significant.
pub open spec fn byte_of(w: u32, k: int) -> u8 {
    if k == 0 {
        (w & 0xff) as u8
    } else if k == 1 {
        ((w >> 8) & 0xff) as u8
    } else if k == 2 {
        ((w >> 16) & 0xff) as u8
    } else {
        ((w >> 24) & 0xff) as u8
    }
}

/// The four bytes of `w` in memory order.
pub open spec fn word_bytes(w: u32) -> Seq<u8> {
    seq![byte_of(w, 0), byte_of(w, 1), byte_of(w, 2), byte_of(w, 3)]
}

/// The word whose bytes in memory order are `b0`, `b1`, `b2`, `b3`.
pub open spec fn word_of(b0: u8, b1: u8, b2: u8, b3: u8) -> u32 {
    (b0 as u32) | ((b1 as u32) << 8) | ((b2 as u32) << 16) | ((b3 as u32) << 24)
}

/// The word held by the four bytes of `mem` that start at `at`.
pub open spec fn word_at(mem: Seq<u8>, at: int) -> u32
    recommends
        0 <= at,
        at + 4 <= mem.len(),
{
    word_of(mem[at], mem[at + 1], mem[at + 2], mem[at + 3])
}

/// Splitting a word into bytes and joining them again gives the word back.
pub proof fn lemma_word_of_bytes(w: u32)
    ensures
        word_of(byte_of(w, 0), byte_of(w, 1), byte_of(w, 2), byte_of(w, 3)) == w,
        word_at(word_bytes(w), 0) == w,
{
    assert(((w & 0xff) as u8 as u32) | ((((w >> 8) & 0xff) as u8 as u32) << 8) | ((((w >> 16)
        & 0xff) as u8 as u32) << 16) | ((((w >> 24) & 0xff) as u8 as u32) << 24) == w)
        by (bit_vector);
}

/// Joining four bytes into a word and splitting it again gives the bytes back.
pub proof fn lemma_bytes_of_word(b0: u8, b1: u8, b2: u8, b3: u8)
    ensures
        byte_of(word_of(b0, b1, b2, b3), 0) == b0,
        byte_of(word_of(b0, b1, b2, b3), 1) == b1,
        byte_of(word_of(b0, b1, b2, b3), 2) == b2,
        byte_of(word_of(b0, b1, b2, b3), 3) == b3,
        word_bytes(word_of(b0, b1, b2, b3)) == seq![b0, b1, b2, b3],
{
    let w = (b0 as u32) | ((b1 as u32) << 8) | ((b2 as u32) << 16) | ((b3 as u32) << 24);
    assert((w & 0xff) as u8 == b0 && ((w >> 8) & 0xff) as u8 == b1 && ((w >> 16) & 0xff) as u8
        == b2 && ((w >> 24) & 0xff) as u8 == b3) by (bit_vector)
        requires
            w == (b0 as u32) | ((b1 as u32) << 8) | ((b2 as u32) << 16) | ((b3 as u32) << 24),
    ;
}

/// The four bytes of `w` in memory order.
pub fn word_to_bytes(w: u32) -> (b: [u8; 4])
    ensures
        b@ == word_bytes(w),
{
    let b0: u8 = (w & 0xff) as u8;
    let b1: u8 = ((w >> 8) & 0xff) as u8;
    let b2: u8 = ((w >> 16) & 0xff) as u8;
    let b3: u8 = ((w >> 24) & 0xff) as u8;
    let b: [u8; 4] = [b0, b1, b2, b3];
    assert(b@ =~= word_bytes(w));
    b
}

/// The word whose bytes in memory order are those of `b`.
pub fn word_from_bytes(b: &[u8; 4]) -> (w: u32)
    ensures
        w == word_at(b@, 0),
        word_bytes(w) == b@,
{
    let w: u32 = (b[0] as u32) | ((b[1] as u32) << 8) | ((b[2] as u32) << 16) | ((b[3] as u32)
        << 24);
    proof {
        lemma_bytes_of_word(b[0], b[1], b[2], b[3]);
        assert(word_bytes(w) =~= b@);
    }
    w
}

/// The eight bytes of two neighbouring words, the lower word first.
pub open spec fn pair_bytes(lo: u32, hi: u32) -> Seq<u8> {
    word_bytes(lo) + word_bytes(hi)
}

/// The two words of a pair are the words that its bytes hold.
pub proof fn lemma_pair_words(lo: u32, hi: u32)
    ensures
        word_at(pair_bytes(lo, hi), 0) == lo,
        word_at(pair_bytes(lo, hi), 4) == hi,
{
    lemma_word_of_bytes(lo);
    lemma_word_of_bytes(hi);
}

/// The word that starts `offset` bytes into the pair `lo`, `hi`.
pub open spec fn spec_split_read(lo: u32, hi: u32, offset: u32) -> u32 {
    word_at(pair_bytes(lo, hi), offset as int)
}

/// Reads the word that starts `offset` bytes into `lo`, taking its upper bytes from `hi`:
/// the lower word is shifted down, the upper word shifted up, and the two are joined.
pub fn split_read(lo: u32, hi: u32, offset: u32) -> (w: u32)
    requires
        offset < WORD_BYTES,
    ensures
        w == spec_split_read(lo, hi, offset),
        word_bytes(w) == pair_bytes(lo, hi).subrange(offset as int, offset + 4),
        offset == 0 ==> w == lo,
{
    let w: u32 = if offset == 0 {
        lo
    } else if offset == 1 {
        (lo >> 8) | (hi << 24)
    } else if offset == 2 {
        (lo >> 16) | (hi << 16)
    } else {
        (lo >> 24) | (hi << 8)
    };
    proof {
        lemma_split_read(lo, hi, offset, w);
    }
    w
}

proof fn lemma_split_read(lo: u32, hi: u32, offset: u32, w: u32)
    requires
        offset < 4,
        w == if offset == 0 {
            lo
        } else if offset == 1 {
            (lo >> 8) | (hi << 24)
        } else if offset == 2 {
            (lo >> 16) | (hi << 16)
        } else {
            (lo >> 24) | (hi << 8)
        },
    ensures
        w == spec_split_read(lo, hi, offset),
        word_bytes(w) == pair_bytes(lo, hi).subrange(offset as int, offset + 4),
{
    let p = pair_bytes(lo, hi);
    let l0 = byte_of(lo, 0);
    let l1 = byte_of(lo, 1);
    let l2 = byte_of(lo, 2);
    let l3 = byte_of(lo, 3);
    let h0 = byte_of(hi, 0);
    let h1 = byte_of(hi, 1);
    let h2 = byte_of(hi, 2);
    if offset == 0 {
        lemma_word_of_bytes(lo);
        assert(w == word_of(l0, l1, l2, l3));
    } else if offset == 1 {
        assert(w == word_of(l1, l2, l3, h0)) by (bit_vector)
            requires
                w == (lo >> 8) | (hi << 24),
                l1 == ((lo >> 8) & 0xff) as u8,
                l2 == ((lo >> 16) & 0xff) as u8,
                l3 == ((lo >> 24) & 0xff) as u8,
                h0 == (hi & 0xff) as u8,
        ;
        lemma_bytes_of_word(l1, l2, l3, h0);
    } else if offset == 2 {
        assert(w == word_of(l2, l3, h0, h1)) by (bit_vector)
            requires
                w == (lo >> 16) | (hi << 16),
                l2 == ((lo >> 16) & 0xff) as u8,
                l3 == ((lo >> 24) & 0xff) as u8,
                h0 == (hi & 0xff) as u8,
                h1 == ((hi >> 8) & 0xff) as u8,
        ;
        lemma_bytes_of_word(l2, l3, h0, h1);
    } else {
        assert(w == word_of(l3, h0, h1, h2)) by (bit_vector)
            requires
                w == (lo >> 24) | (hi << 8),
                l3 == ((lo >> 24) & 0xff) as u8,
                h0 == (hi & 0xff) as u8,
                h1 == ((hi >> 8) & 0xff) as u8,
                h2 == ((hi >> 16) & 0xff) as u8,
        ;
        lemma_bytes_of_word(l3, h0, h1, h2);
    }
    assert(word_bytes(w) =~= p.subrange(offset as int, offset + 4));
}

/// The pair `lo`, `hi` after `value` was stored `offset` bytes into it.
pub open spec fn spec_split_write(lo: u32, hi: u32, offset: u32, value: u32) -> Seq<u8> {
    pair_bytes(lo, hi).subrange(0, offset as int) + word_bytes(value) + pair_bytes(
        lo,
        hi,
    ).subrange(offset + 4, 8)
}

/// Stores `value` at `offset` bytes into `lo`, spilling into `hi`: both words are rebuilt
/// from their old bytes outside the four that `value` covers and from `value` inside them.
pub fn split_write(lo: u32, hi: u32, offset: u32, value: u32) -> (r: (u32, u32))
    requires
        offset < WORD_BYTES,
    ensures
        pair_bytes(r.0, r.1) == spec_split_write(lo, hi, offset, value),
        offset == 0 ==> r == (value, hi),
{
    let r: (u32, u32) = if offset == 0 {
        (value, hi)
    } else if offset == 1 {
        ((lo & 0x0000_00ff) | (value << 8), (hi & 0xffff_ff00) | (value >> 24))
    } else if offset == 2 {
        ((lo & 0x0000_ffff) | (value << 16), (hi & 0xffff_0000) | (value >> 16))
    } else {
        ((lo & 0x00ff_ffff) | (value << 24), (hi & 0xff00_0000) | (value >> 8))
    };
    proof {
        lemma_split_write(lo, hi, offset, value, r.0, r.1);
    }
    r
}

proof fn lemma_split_write(lo: u32, hi: u32, offset: u32, value: u32, a: u32, b: u32)
    requires
        offset < 4,
        (a, b) == if offset == 0 {
            (value, hi)
        } else if offset == 1 {
            ((lo & 0x0000_00ff) | (value << 8), (hi & 0xffff_ff00) | (value >> 24))
        } else if offset == 2 {
            ((lo & 0x0000_ffff) | (value << 16), (hi & 0xffff_0000) | (value >> 16))
        } else {
            ((lo & 0x00ff_ffff) | (value << 24), (hi & 0xff00_0000) | (value >> 8))
        },
    ensures
        pair_bytes(a, b) == spec_split_write(lo, hi, offset, value),
{
    let l0 = byte_of(lo, 0);
    let l1 = byte_of(lo, 1);
    let l2 = byte_of(lo, 2);
    let h1 = byte_of(hi, 1);
    let h2 = byte_of(hi, 2);
    let h3 = byte_of(hi, 3);
    let v0 = byte_of(value, 0);
    let v1 = byte_of(value, 1);
    let v2 = byte_of(value, 2);
    let v3 = byte_of(value, 3);
    if offset == 0 {
    } else if offset == 1 {
        assert(a == word_of(l0, v0, v1, v2) && b == word_of(v3, h1, h2, h3)) by (bit_vector)
            requires
                a == (lo & 0x0000_00ff) | (value << 8),
                b == (hi & 0xffff_ff00) | (value >> 24),
                l0 == (lo & 0xff) as u8,
                h1 == ((hi >> 8) & 0xff) as u8,
                h2 == ((hi >> 16) & 0xff) as u8,
                h3 == ((hi >> 24) & 0xff) as u8,
                v0 == (value & 0xff) as u8,
                v1 == ((value >> 8) & 0xff) as u8,
                v2 == ((value >> 16) & 0xff) as u8,
                v3 == ((value >> 24) & 0xff) as u8,
        ;
        lemma_bytes_of_word(l0, v0, v1, v2);
        lemma_bytes_of_word(v3, h1, h2, h3);
    } else if offset == 2 {
        assert(a == word_of(l0, l1, v0, v1) && b == word_of(v2, v3, h2, h3)) by (bit_vector)
            requires
                a == (lo & 0x0000_ffff) | (value << 16),
                b == (hi & 0xffff_0000) | (value >> 16),
                l0 == (lo & 0xff) as u8,
                l1 == ((lo >> 8) & 0xff) as u8,
                h2 == ((hi >> 16) & 0xff) as u8,
                h3 == ((hi >> 24) & 0xff) as u8,
                v0 == (value & 0xff) as u8,
                v1 == ((value >> 8) & 0xff) as u8,
                v2 == ((value >> 16) & 0xff) as u8,
                v3 == ((value >> 24) & 0xff) as u8,
        ;
        lemma_bytes_of_word(l0, l1, v0, v1);
        lemma_bytes_of_word(v2, v3, h2, h3);
    } else {
        assert(a == word_of(l0, l1, l2, v0) && b == word_of(v1, v2, v3, h3)) by (bit_vector)
            requires
                a == (lo & 0x00ff_ffff) | (value << 24),
                b == (hi & 0xff00_0000) | (value >> 8),
                l0 == (lo & 0xff) as u8,
                l1 == ((lo >> 8) & 0xff) as u8,
                l2 == ((lo >> 16) & 0xff) as u8,
                h3 == ((hi >> 24) & 0xff) as u8,
                v0 == (value & 0xff) as u8,
                v1 == ((value >> 8) & 0xff) as u8,
                v2 == ((value >> 16) & 0xff) as u8,
                v3 == ((value >> 24) & 0xff) as u8,
        ;
        lemma_bytes_of_word(l0, l1, l2, v0);
        lemma_bytes_of_word(v1, v2, v3, h3);
    }
    assert(pair_bytes(a, b) =~= spec_split_write(lo, hi, offset, value));
}

} // verus!
