//! Aligned windows around unaligned byte ranges.
//!
//! A transfer of any length at any byte address is carried out as one transfer of whole
//! words: the window that encloses the range. A read takes its bytes out of the window; a
//! write first fills the bytes of the window that it does not cover from the words already in
//! memory, so that they are written back unchanged.

use vstd::prelude::*;
use crate::error::AxiError;

verus! {

/// The whole words that enclose a byte range.
#[derive(Clone, Copy, Debug, PartialEq, Eq, Structural)]
pub struct Window {
    /// Address of the first word; a multiple of four.
    pub start: u32,
    /// Bytes in the window; a multiple of four.
    pub len: usize,
    /// Bytes of the first word that lie before the range.
    pub skip: usize,
}

/// One past the highest byte address of the bus.
pub open spec fn bus_end() -> int {
    0x1_0000_0000
}

/// Bytes in the window that encloses `len` bytes at `addr`.
pub open spec fn window_len(addr: u32, len: nat) -> nat {
    if len == 0 {
        0
    } else {
        ((addr % 4 + len + 3) / 4 * 4) as nat
    }
}

/// Whether `len` bytes at `addr` lie on the bus and their window can be held in memory.
pub open spec fn range_fits(addr: u32, len: nat) -> bool {
    addr + len <= bus_end() && window_len(addr, len) <= usize::MAX
}

/// The window that encloses `len` bytes at `addr`.
pub open spec fn spec_window(addr: u32, len: nat) -> Window {
    Window {
        start: (addr - addr % 4) as u32,
        len: window_len(addr, len) as usize,
        skip: (addr % 4) as usize,
    }
}

impl Window {
    /// Whether this window encloses `len` bytes: whole words, the range inside them, and
    /// fewer than four bytes to spare at either end.
    pub open spec fn encloses(self, len: nat) -> bool {
        &&& self.start % 4 == 0
        &&& self.len % 4 == 0
        &&& self.skip < 4
        &&& self.start + self.len <= bus_end()
        &&& len == 0 ==> self.len == 0
        &&& len > 0 ==> self.skip + len <= self.len < self.skip + len + 4
    }
}

/// The window of a range that fits encloses it and starts where the range's first word does.
pub proof fn lemma_window_encloses(addr: u32, len: nat)
    requires
        range_fits(addr, len),
    ensures
        spec_window(addr, len).encloses(len),
        spec_window(addr, len).start + spec_window(addr, len).skip == addr,
{
}

/// Finds the whole words that enclose `len` bytes at `addr`. A range that runs past the end
/// of the bus is refused, never cut short.
pub fn enclosing_window(addr: u32, len: usize) -> (r: Result<Window, AxiError>)
    ensures
        r is Ok <==> range_fits(addr, len as nat),
        r matches Ok(w) ==> w == spec_window(addr, len as nat) && w.encloses(len as nat) && w.start
            + w.skip == addr,
        r matches Err(e) ==> e == (AxiError::RangeOverflow { addr, len }),
{
    let skip: u32 = addr % 4;
    if len == 0 {
        return Ok(Window { start: addr - skip, len: 0, skip: skip as usize });
    }
    if len as u64 > 0x1_0000_0000u64 - addr as u64 {
        return Err(AxiError::RangeOverflow { addr, len });
    }
    let covered: u64 = (skip as u64 + len as u64 + 3) / 4 * 4;
    if covered > usize::MAX as u64 {
        return Err(AxiError::RangeOverflow { addr, len });
    }
    proof {
        lemma_window_encloses(addr, len as nat);
    }
    Ok(Window { start: addr - skip, len: covered as usize, skip: skip as usize })
}

/// The bytes to write through window `w`: `data` where the range lies, and around it the
/// bytes that the first and last word of the window hold already.
pub open spec fn window_image(w: Window, head: Seq<u8>, tail: Seq<u8>, data: Seq<u8>) -> Seq<u8> {
    Seq::new(
        w.len as nat,
        |i: int|
            if i < w.skip {
                head[i]
            } else if i < w.skip + data.len() {
                data[i - w.skip]
            } else {
                tail[i - (w.len - 4)]
            },
    )
}

/// Builds the bytes to write through window `w` from `data` and from the words that the
/// window's first and last word hold now (`head` and `tail`; for a window of one word both
/// are that word).
pub fn assemble(w: &Window, head: &[u8; 4], tail: &[u8; 4], data: &[u8]) -> (image: Vec<u8>)
    requires
        data@.len() > 0,
        w.encloses(data@.len()),
    ensures
        image@ == window_image(*w, head@, tail@, data@),
        image@.len() == w.len,
        image@.subrange(w.skip as int, w.skip + data@.len()) == data@,
{
    let mut image: Vec<u8> = Vec::with_capacity(w.len);
    let mut i: usize = 0;
    while i < w.len
        invariant
            i <= w.len,
            data@.len() > 0,
            w.encloses(data@.len()),
            image@.len() == i,
            forall|j: int| 0 <= j < i ==> image@[j] == #[trigger] window_image(*w, head@, tail@, data@)[j],
        decreases w.len - i,
    {
        let b: u8 = if i < w.skip {
            head[i]
        } else if i - w.skip < data.len() {
            data[i - w.skip]
        } else {
            tail[i - (w.len - 4)]
        };
        image.push(b);
        i += 1;
    }
    assert(image@ =~= window_image(*w, head@, tail@, data@));
    assert(image@.subrange(w.skip as int, w.skip + data@.len()) =~= data@);
    image
}

/// Copies out of `window` the `out.len()` bytes that start `skip` bytes into it.
pub fn extract(window: &[u8], skip: usize, out: &mut [u8])
    requires
        skip + old(out)@.len() <= window@.len(),
    ensures
        final(out)@ == window@.subrange(skip as int, skip + old(out)@.len()),
{
    let n: usize = out.len();
    let total: usize = window.len();
    let mut i: usize = 0;
    while i < n
        invariant
            i <= n,
            n == out@.len(),
            total == window@.len(),
            skip + n <= total,
            forall|j: int| 0 <= j < i ==> out@[j] == window@[skip + j],
        decreases n - i,
    {
        out[i] = window[skip + i];
        i += 1;
    }
    assert(out@ =~= window@.subrange(skip as int, skip + n));
}

} // verus!
