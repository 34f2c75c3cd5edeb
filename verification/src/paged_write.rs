//! Page-aligned write planning.
//!
//! The storage device accepts at most one page per write command and needs a
//! settle delay after each one.  [`plan_write_chunks`] splits an address and
//! a buffer length into chunks that never cross a page boundary: a partial
//! first chunk up to the next boundary when the address is not aligned, then
//! full pages, the last chunk possibly shorter.  [`PagedWrite`] drives such
//! a plan chunk by chunk against a raw transport that may report transient
//! contention (retry the same chunk) or a hard failure (abort).

use vstd::prelude::*;

use vstd::arithmetic::div_mod::lemma_fundamental_div_mod;
use vstd::arithmetic::div_mod::lemma_mod_bound;
use vstd::arithmetic::div_mod::lemma_mod_multiples_basic;

verus! {

/// One planned write: the device address it targets and the half-open range
/// of the source buffer it carries.
#[derive(Debug, Clone, Copy, PartialEq, Eq, Structural)]
pub struct WriteChunk {
    pub address: u32,
    pub start: usize,
    pub end: usize,
}

/// The chunk ranges of a buffer of length `len` written to `address` with
/// page size `page`: the first chunk reaches from `start` to the next page
/// boundary (capped at `len`), and each following chunk starts where the
/// previous one ended.
pub open spec fn spec_chunk_ranges(address: int, start: int, len: int, page: int) -> Seq<(int, int)>
    recommends
        page >= 1,
        0 <= address,
        0 <= start,
    decreases len - start via spec_chunk_ranges_decreases
{
    if start >= len || page < 1 {
        Seq::empty()
    } else {
        let room = page - ((address + start) % page);
        let end = if start + room <= len {
            start + room
        } else {
            len
        };
        seq![(start, end)] + spec_chunk_ranges(address, end, len, page)
    }
}

#[via_fn]
proof fn spec_chunk_ranges_decreases(address: int, start: int, len: int, page: int) {
    if !(start >= len || page < 1) {
        lemma_mod_bound(address + start, page);
    }
}

/// Law: the planned chunk ranges partition `[start, len)` in order, none is
/// empty, none crosses a page boundary, and every chunk after the first
/// starts exactly on a boundary.
pub proof fn lemma_chunk_ranges_properties(address: int, start: int, len: int, page: int)
    requires
        page >= 1,
        0 <= address,
        0 <= start,
    ensures
        start >= len ==> spec_chunk_ranges(address, start, len, page).len() == 0,
        start < len ==> spec_chunk_ranges(address, start, len, page).len() >= 1,
        start < len ==> spec_chunk_ranges(address, start, len, page)[0].0 == start,
        start < len ==> spec_chunk_ranges(address, start, len, page).last().1 == len,
        forall|k: int|
            0 <= k < spec_chunk_ranges(address, start, len, page).len() ==> (#[trigger] spec_chunk_ranges(
                address,
                start,
                len,
                page,
            )[k]).0 < spec_chunk_ranges(address, start, len, page)[k].1 <= len,
        forall|k: int|
            0 <= k && k + 1 < spec_chunk_ranges(address, start, len, page).len() ==> (
            #[trigger] spec_chunk_ranges(address, start, len, page)[k]).1 == spec_chunk_ranges(
                address,
                start,
                len,
                page,
            )[k + 1].0,
        forall|k: int|
            0 <= k < spec_chunk_ranges(address, start, len, page).len() ==> (#[trigger] spec_chunk_ranges(
                address,
                start,
                len,
                page,
            )[k]).1 - spec_chunk_ranges(address, start, len, page)[k].0 <= page - ((address
                + spec_chunk_ranges(address, start, len, page)[k].0) % page),
        forall|k: int|
            1 <= k < spec_chunk_ranges(address, start, len, page).len() ==> (address + (
            #[trigger] spec_chunk_ranges(address, start, len, page)[k]).0) % page == 0,
    decreases len - start,
{
    if start < len {
        let m = (address + start) % page;
        let q = (address + start) / page;
        lemma_mod_bound(address + start, page);
        lemma_fundamental_div_mod(address + start, page);
        let room = page - m;
        let end = if start + room <= len {
            start + room
        } else {
            len
        };
        lemma_chunk_ranges_properties(address, end, len, page);
        let cs = spec_chunk_ranges(address, start, len, page);
        let rest = spec_chunk_ranges(address, end, len, page);
        assert(cs == seq![(start, end)] + rest);
        assert(forall|k: int| 1 <= k < cs.len() ==> cs[k] == rest[k - 1]);
        if end < len {
            assert(end == start + room);
            assert(address + end == page * (q + 1)) by (nonlinear_arith)
                requires
                    address + start == page * q + m,
                    end == start + (page - m),
            ;
            assert((address + end) % page == 0) by {
                lemma_mod_multiples_basic(q + 1, page);
            }
            assert(rest[0].0 == end);
        }
        assert(cs.last().1 == len) by {
            if end < len {
                assert(cs.last() == rest.last());
            }
        }
    }
}

/// Splits a write of `len` bytes to device address `address` into chunks
/// that respect `page_size`-byte page boundaries.  The returned chunks carry
/// exactly the ranges of [`spec_chunk_ranges`], and each targets the device
/// address of its first byte.
pub fn plan_write_chunks(address: u32, len: usize, page_size: usize) -> (chunks: Vec<WriteChunk>)
    requires
        page_size >= 1,
        address + len <= u32::MAX,
    ensures
        chunks@.map_values(|c: WriteChunk| (c.start as int, c.end as int)) == spec_chunk_ranges(
            address as int,
            0,
            len as int,
            page_size as int,
        ),
        forall|k: int|
            0 <= k < chunks@.len() ==> (#[trigger] chunks@[k]).address == address + chunks@[k].start,
{
    let mut chunks: Vec<WriteChunk> = Vec::new();
    let mut start: usize = 0;
    while start < len
        invariant
            start <= len,
            page_size >= 1,
            address + len <= u32::MAX,
            spec_chunk_ranges(address as int, 0, len as int, page_size as int) == chunks@.map_values(
                |c: WriteChunk| (c.start as int, c.end as int),
            ) + spec_chunk_ranges(address as int, start as int, len as int, page_size as int),
            forall|k: int|
                0 <= k < chunks@.len() ==> (#[trigger] chunks@[k]).address == address
                    + chunks@[k].start,
        decreases len - start,
    {
        proof {
            lemma_mod_bound(address as int + start as int, page_size as int);
        }
        let rem = page_size - ((address as usize + start) % page_size);
        let end = if rem < len - start {
            start + rem
        } else {
            len
        };
        let ghost chunks0 = chunks@;
        chunks.push(WriteChunk { address: address + start as u32, start, end });
        proof {
            let f = |c: WriteChunk| (c.start as int, c.end as int);
            assert(chunks@.map_values(f) =~= chunks0.map_values(f) + seq![
                (start as int, end as int),
            ]);
            assert(chunks0.map_values(f) + (seq![(start as int, end as int)]
                + spec_chunk_ranges(address as int, end as int, len as int, page_size as int))
                =~= (chunks0.map_values(f) + seq![(start as int, end as int)])
                + spec_chunk_ranges(address as int, end as int, len as int, page_size as int));
        }
        start = end;
    }
    proof {
        assert(chunks@.map_values(|c: WriteChunk| (c.start as int, c.end as int))
            + Seq::<(int, int)>::empty() =~= chunks@.map_values(
            |c: WriteChunk| (c.start as int, c.end as int),
        ));
    }
    chunks
}

/// Outcome of one raw page-write attempt, as the transport reports it.
#[derive(Debug, Clone, Copy, PartialEq, Eq, Structural)]
pub enum WriteOutcome {
    /// The device accepted the chunk; it is persisted once the settle delay
    /// has passed.
    Accepted,
    /// Transient bus contention; the same chunk must be attempted again.
    Busy,
    /// A hard transport failure; the whole operation is aborted.
    Failed,
}

/// A paged write in progress: the planned chunks, how many of them are
/// persisted, and whether a hard failure ended the operation early.
///
/// The caller loop asks [`PagedWrite::pending`] for the next chunk, attempts
/// the raw write, and feeds the outcome to [`PagedWrite::record`]; a `true`
/// return there tells it to wait the device's settle delay.  No rollback is
/// attempted on failure: bytes before [`PagedWrite::persisted_up_to`] are
/// persisted, the rest is not.
pub struct PagedWrite {
    chunks: Vec<WriteChunk>,
    next: usize,
    failed: bool,
}

impl PagedWrite {
    /// The planned chunks, in the order they are written.
    pub closed spec fn spec_chunks(&self) -> Seq<WriteChunk> {
        self.chunks@
    }

    /// How many chunks have been accepted so far.
    pub closed spec fn spec_next(&self) -> int {
        self.next as int
    }

    /// Whether a hard failure ended the operation.
    pub closed spec fn spec_failed(&self) -> bool {
        self.failed
    }

    /// The write position never runs past the plan.
    pub open spec fn wf(&self) -> bool {
        0 <= self.spec_next() <= self.spec_chunks().len()
    }

    /// The byte offset of the source buffer up to which the device is
    /// guaranteed persisted: the end of the last accepted chunk.
    pub open spec fn spec_persisted(&self) -> int {
        if self.spec_next() == 0 {
            0
        } else {
            self.spec_chunks()[self.spec_next() - 1].end as int
        }
    }

    /// Plans a paged write of `len` bytes to `address` with the given page
    /// size.  Nothing is persisted yet.
    pub fn new(address: u32, len: usize, page_size: usize) -> (w: PagedWrite)
        requires
            page_size >= 1,
            address + len <= u32::MAX,
        ensures
            w.wf(),
            !w.spec_failed(),
            w.spec_next() == 0,
            w.spec_chunks().map_values(|c: WriteChunk| (c.start as int, c.end as int))
                == spec_chunk_ranges(address as int, 0, len as int, page_size as int),
            forall|k: int|
                0 <= k < w.spec_chunks().len() ==> (#[trigger] w.spec_chunks()[k]).address
                    == address + w.spec_chunks()[k].start,
    {
        PagedWrite { chunks: plan_write_chunks(address, len, page_size), next: 0, failed: false }
    }

    /// The chunk to write next: `None` once every chunk is persisted or a
    /// hard failure aborted the operation.
    pub fn pending(&self) -> (r: Option<WriteChunk>)
        requires
            self.wf(),
        ensures
            (match r {
                Some(c) => !self.spec_failed() && self.spec_next() < self.spec_chunks().len() && c
                    == self.spec_chunks()[self.spec_next()],
                None => self.spec_failed() || self.spec_next() == self.spec_chunks().len(),
            }),
    {
        if self.failed || self.next >= self.chunks.len() {
            None
        } else {
            Some(self.chunks[self.next])
        }
    }

    /// Records the transport's outcome for the pending chunk.  `Busy` leaves
    /// the write where it was — the same chunk is attempted again; `Accepted`
    /// advances past the chunk and returns `true`: the caller must wait the
    /// settle delay before the next command; `Failed` aborts the operation.
    pub fn record(&mut self, outcome: WriteOutcome) -> (settle: bool)
        requires
            old(self).wf(),
            !old(self).spec_failed(),
            old(self).spec_next() < old(self).spec_chunks().len(),
        ensures
            final(self).wf(),
            final(self).spec_chunks() == old(self).spec_chunks(),
            outcome == WriteOutcome::Busy ==> *final(self) == *old(self) && !settle,
            outcome == WriteOutcome::Accepted ==> final(self).spec_next() == old(self).spec_next()
                + 1 && !final(self).spec_failed() && settle,
            outcome == WriteOutcome::Failed ==> final(self).spec_failed() && final(self).spec_next()
                == old(self).spec_next() && !settle,
    {
        match outcome {
            WriteOutcome::Busy => false,
            WriteOutcome::Accepted => {
                if self.next < self.chunks.len() {
                    self.next = self.next + 1;
                }
                true
            },
            WriteOutcome::Failed => {
                self.failed = true;
                false
            },
        }
    }

    /// The byte offset of the source buffer up to which the device is
    /// guaranteed persisted.
    pub fn persisted_up_to(&self) -> (r: usize)
        requires
            self.wf(),
        ensures
            r as int == self.spec_persisted(),
    {
        if self.next == 0 {
            0
        } else {
            self.chunks[self.next - 1].end
        }
    }

    /// Whether a hard failure aborted the operation.
    pub fn has_failed(&self) -> (r: bool)
        ensures
            r == self.spec_failed(),
    {
        self.failed
    }
}

} // verus!
