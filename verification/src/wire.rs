//! The rule-list wire format.
//!
//! All multi-byte integers of this format are big-endian, independent of the
//! host layout (in contrast to the native-layout descriptor format of
//! [`crate::device_info`]).  The grammar:
//!
//! ```text
//! payload := u32 item_count, item*
//! item    := u32 matcher_count, matcher*, tagged(extractor), tagged(producer)
//! matcher := tagged(extractor), tagged(filter)
//! tagged  := u16 code, <fixed payload bytes for that code>
//! ```
//!
//! This module defines the format mathematically — fallible encoding and
//! decoding as spec functions — together with verified byte-level readers and
//! writers.  The executable codec lives in [`crate::event_processor`]; the
//! format's laws are proved in [`crate::laws`].

use vstd::prelude::*;

use crate::rules::EventProcessorError;
use crate::rules::EventProcessorView;
use crate::rules::MatcherView;
use crate::rules::TaggedRecordView;
use crate::rules::spec_extractor_payload_size;
use crate::rules::spec_filter_payload_size;
use crate::rules::spec_producer_payload_size;

verus! {

/// The two bytes of `v`, most significant first.
pub open spec fn spec_u16_be(v: u16) -> Seq<u8> {
    seq![(v / 0x100) as u8, (v % 0x100) as u8]
}

/// The four bytes of `v`, most significant first.
pub open spec fn spec_u32_be(v: u32) -> Seq<u8> {
    seq![
        (v / 0x1000000) as u8,
        ((v / 0x10000) % 0x100) as u8,
        ((v / 0x100) % 0x100) as u8,
        (v % 0x100) as u8,
    ]
}

/// The big-endian 16-bit value at offset `off` of `b`.
pub open spec fn spec_u16_at(b: Seq<u8>, off: int) -> u16
    recommends
        0 <= off,
        off + 2 <= b.len(),
{
    (b[off] * 0x100 + b[off + 1]) as u16
}

/// The big-endian 32-bit value at offset `off` of `b`.
pub open spec fn spec_u32_at(b: Seq<u8>, off: int) -> u32
    recommends
        0 <= off,
        off + 4 <= b.len(),
{
    (b[off] * 0x1000000 + b[off + 1] * 0x10000 + b[off + 2] * 0x100 + b[off + 3]) as u32
}

/// Reads the big-endian 16-bit value at `offset`.
pub fn read_u16_be(data: &Vec<u8>, offset: usize) -> (v: u16)
    requires
        offset + 2 <= data@.len(),
    ensures
        v == spec_u16_at(data@, offset as int),
{
    let n = data.len();
    (data[offset] as u16) * 0x100 + (data[offset + 1] as u16)
}

/// Reads the big-endian 32-bit value at `offset`.
pub fn read_u32_be(data: &Vec<u8>, offset: usize) -> (v: u32)
    requires
        offset + 4 <= data@.len(),
    ensures
        v == spec_u32_at(data@, offset as int),
{
    let n = data.len();
    (data[offset] as u32) * 0x1000000 + (data[offset + 1] as u32) * 0x10000 + (data[offset
        + 2] as u32) * 0x100 + (data[offset + 3] as u32)
}

/// Appends the two big-endian bytes of `value`.
pub fn write_u16_be(data: &mut Vec<u8>, value: u16)
    ensures
        final(data)@ == old(data)@ + spec_u16_be(value),
{
    data.push((value / 0x100) as u8);
    data.push((value % 0x100) as u8);
    proof {
        assert(data@ =~= old(data)@ + spec_u16_be(value));
    }
}

/// Appends the four big-endian bytes of `value`.
pub fn write_u32_be(data: &mut Vec<u8>, value: u32)
    ensures
        final(data)@ == old(data)@ + spec_u32_be(value),
{
    data.push((value / 0x1000000) as u8);
    data.push(((value / 0x10000) % 0x100) as u8);
    data.push(((value / 0x100) % 0x100) as u8);
    data.push((value % 0x100) as u8);
    proof {
        assert(data@ =~= old(data)@ + spec_u32_be(value));
    }
}

/// Encoding of one extractor record: its code, then its payload, which
/// must have the size the extractor registry fixes for that code.
pub open spec fn spec_try_encode_extractor(t: TaggedRecordView) -> Result<
    Seq<u8>,
    EventProcessorError,
> {
    match spec_extractor_payload_size(t.code) {
        None => Err(EventProcessorError::UnknownExtractor),
        Some(n) => if t.payload.len() == n {
            Ok(spec_u16_be(t.code) + t.payload)
        } else {
            Err(EventProcessorError::WrongSize)
        },
    }
}

/// Encoding of one filter record, against the filter registry.
pub open spec fn spec_try_encode_filter(t: TaggedRecordView) -> Result<
    Seq<u8>,
    EventProcessorError,
> {
    match spec_filter_payload_size(t.code) {
        None => Err(EventProcessorError::UnknownFilter),
        Some(n) => if t.payload.len() == n {
            Ok(spec_u16_be(t.code) + t.payload)
        } else {
            Err(EventProcessorError::WrongSize)
        },
    }
}

/// Encoding of one producer record, against the producer registry.
pub open spec fn spec_try_encode_producer(t: TaggedRecordView) -> Result<
    Seq<u8>,
    EventProcessorError,
> {
    match spec_producer_payload_size(t.code) {
        None => Err(EventProcessorError::UnknownProducer),
        Some(n) => if t.payload.len() == n {
            Ok(spec_u16_be(t.code) + t.payload)
        } else {
            Err(EventProcessorError::WrongSize)
        },
    }
}

/// Decoding of one extractor record at offset `off`: the code must lie
/// within the buffer and in the extractor registry, and the registered
/// payload size must lie within the buffer; the record and the offset one
/// past it are returned.
pub open spec fn spec_decode_extractor(b: Seq<u8>, off: int) -> Result<
    (TaggedRecordView, int),
    EventProcessorError,
>
    recommends
        0 <= off,
{
    if off + 2 > b.len() {
        Err(EventProcessorError::WrongSize)
    } else {
        let code = spec_u16_at(b, off);
        match spec_extractor_payload_size(code) {
            None => Err(EventProcessorError::UnknownExtractor),
            Some(n) => if off + 2 + n > b.len() {
                Err(EventProcessorError::WrongSize)
            } else {
                Ok(
                    (
                        TaggedRecordView { code, payload: b.subrange(off + 2, off + 2 + n) },
                        off + 2 + n,
                    ),
                )
            },
        }
    }
}

/// Decoding of one filter record at offset `off`, against the filter
/// registry.
pub open spec fn spec_decode_filter(b: Seq<u8>, off: int) -> Result<
    (TaggedRecordView, int),
    EventProcessorError,
>
    recommends
        0 <= off,
{
    if off + 2 > b.len() {
        Err(EventProcessorError::WrongSize)
    } else {
        let code = spec_u16_at(b, off);
        match spec_filter_payload_size(code) {
            None => Err(EventProcessorError::UnknownFilter),
            Some(n) => if off + 2 + n > b.len() {
                Err(EventProcessorError::WrongSize)
            } else {
                Ok(
                    (
                        TaggedRecordView { code, payload: b.subrange(off + 2, off + 2 + n) },
                        off + 2 + n,
                    ),
                )
            },
        }
    }
}

/// Decoding of one producer record at offset `off`, against the producer
/// registry.
pub open spec fn spec_decode_producer(b: Seq<u8>, off: int) -> Result<
    (TaggedRecordView, int),
    EventProcessorError,
>
    recommends
        0 <= off,
{
    if off + 2 > b.len() {
        Err(EventProcessorError::WrongSize)
    } else {
        let code = spec_u16_at(b, off);
        match spec_producer_payload_size(code) {
            None => Err(EventProcessorError::UnknownProducer),
            Some(n) => if off + 2 + n > b.len() {
                Err(EventProcessorError::WrongSize)
            } else {
                Ok(
                    (
                        TaggedRecordView { code, payload: b.subrange(off + 2, off + 2 + n) },
                        off + 2 + n,
                    ),
                )
            },
        }
    }
}

/// Encoding of one matcher: its extractor record, then its filter record.
pub open spec fn spec_try_encode_matcher(m: MatcherView) -> Result<Seq<u8>, EventProcessorError> {
    match spec_try_encode_extractor(m.extractor) {
        Err(e) => Err(e),
        Ok(ex) => match spec_try_encode_filter(m.filter) {
            Err(e) => Err(e),
            Ok(f) => Ok(ex + f),
        },
    }
}

/// Decoding of one matcher at offset `off`.
pub open spec fn spec_decode_matcher(b: Seq<u8>, off: int) -> Result<
    (MatcherView, int),
    EventProcessorError,
> {
    match spec_decode_extractor(b, off) {
        Err(e) => Err(e),
        Ok((ex, o2)) => match spec_decode_filter(b, o2) {
            Err(e) => Err(e),
            Ok((f, o3)) => Ok((MatcherView { extractor: ex, filter: f }, o3)),
        },
    }
}

/// Encoding of a matcher sequence, first to last; the first failure wins.
pub open spec fn spec_try_encode_matchers(s: Seq<MatcherView>) -> Result<
    Seq<u8>,
    EventProcessorError,
>
    decreases s.len(),
{
    if s.len() == 0 {
        Ok(Seq::empty())
    } else {
        match spec_try_encode_matcher(s[0]) {
            Err(e) => Err(e),
            Ok(h) => match spec_try_encode_matchers(s.drop_first()) {
                Err(e) => Err(e),
                Ok(t) => Ok(h + t),
            },
        }
    }
}

/// Decoding of `n` consecutive matchers starting at offset `off`.
pub open spec fn spec_decode_matchers(b: Seq<u8>, off: int, n: nat) -> Result<
    (Seq<MatcherView>, int),
    EventProcessorError,
>
    decreases n,
{
    if n == 0 {
        Ok((Seq::empty(), off))
    } else {
        match spec_decode_matcher(b, off) {
            Err(e) => Err(e),
            Ok((m, o2)) => match spec_decode_matchers(b, o2, (n - 1) as nat) {
                Err(e) => Err(e),
                Ok((s, o3)) => Ok((seq![m] + s, o3)),
            },
        }
    }
}

/// Encoding of one item: its matcher count, its matchers, then its trailing
/// extractor and producer records.  A matcher count beyond the 32-bit count
/// field yields `WrongSize`.
pub open spec fn spec_try_encode_event_processor(p: EventProcessorView) -> Result<
    Seq<u8>,
    EventProcessorError,
> {
    if p.matchers.len() > u32::MAX {
        Err(EventProcessorError::WrongSize)
    } else {
        match spec_try_encode_matchers(p.matchers) {
            Err(e) => Err(e),
            Ok(ms) => match spec_try_encode_extractor(p.extractor) {
                Err(e) => Err(e),
                Ok(ex) => match spec_try_encode_producer(p.producer) {
                    Err(e) => Err(e),
                    Ok(pr) => Ok(spec_u32_be(p.matchers.len() as u32) + ms + ex + pr),
                },
            },
        }
    }
}

/// Decoding of one item at offset `off`.
pub open spec fn spec_decode_event_processor(b: Seq<u8>, off: int) -> Result<
    (EventProcessorView, int),
    EventProcessorError,
> {
    if off + 4 > b.len() {
        Err(EventProcessorError::WrongSize)
    } else {
        match spec_decode_matchers(b, off + 4, spec_u32_at(b, off) as nat) {
            Err(e) => Err(e),
            Ok((ms, o2)) => match spec_decode_extractor(b, o2) {
                Err(e) => Err(e),
                Ok((ex, o3)) => match spec_decode_producer(b, o3) {
                    Err(e) => Err(e),
                    Ok((pr, o4)) => Ok(
                        (EventProcessorView { matchers: ms, extractor: ex, producer: pr }, o4),
                    ),
                },
            },
        }
    }
}

/// Encoding of an item sequence, first to last; the first failure wins.
pub open spec fn spec_try_encode_event_processors(s: Seq<EventProcessorView>) -> Result<
    Seq<u8>,
    EventProcessorError,
>
    decreases s.len(),
{
    if s.len() == 0 {
        Ok(Seq::empty())
    } else {
        match spec_try_encode_event_processor(s[0]) {
            Err(e) => Err(e),
            Ok(h) => match spec_try_encode_event_processors(s.drop_first()) {
                Err(e) => Err(e),
                Ok(t) => Ok(h + t),
            },
        }
    }
}

/// Decoding of `n` consecutive items starting at offset `off`.
pub open spec fn spec_decode_event_processors(b: Seq<u8>, off: int, n: nat) -> Result<
    (Seq<EventProcessorView>, int),
    EventProcessorError,
>
    decreases n,
{
    if n == 0 {
        Ok((Seq::empty(), off))
    } else {
        match spec_decode_event_processor(b, off) {
            Err(e) => Err(e),
            Ok((p, o2)) => match spec_decode_event_processors(b, o2, (n - 1) as nat) {
                Err(e) => Err(e),
                Ok((s, o3)) => Ok((seq![p] + s, o3)),
            },
        }
    }
}

/// The full rule-list payload: a 32-bit item count followed by the items.
/// An item count beyond the 32-bit count field yields `WrongSize`.
pub open spec fn spec_try_encode_rule_list(l: Seq<EventProcessorView>) -> Result<
    Seq<u8>,
    EventProcessorError,
> {
    if l.len() > u32::MAX {
        Err(EventProcessorError::WrongSize)
    } else {
        match spec_try_encode_event_processors(l) {
            Err(e) => Err(e),
            Ok(body) => Ok(spec_u32_be(l.len() as u32) + body),
        }
    }
}

/// Decoding of a full rule-list payload.  Bytes after the last item are
/// ignored, matching a storage medium that hands back a whole region.
pub open spec fn spec_decode_rule_list(b: Seq<u8>) -> Result<
    Seq<EventProcessorView>,
    EventProcessorError,
> {
    if b.len() < 4 {
        Err(EventProcessorError::WrongSize)
    } else {
        match spec_decode_event_processors(b, 4, spec_u32_at(b, 0) as nat) {
            Err(e) => Err(e),
            Ok((s, _)) => Ok(s),
        }
    }
}

/// One unfolding of the matcher-sequence encoder: the head record decides,
/// then the rest of the sequence.
pub(crate) proof fn lemma_try_encode_matchers_unfold(s: Seq<MatcherView>)
    requires
        s.len() > 0,
    ensures
        spec_try_encode_matcher(s[0]) matches Err(e) ==> spec_try_encode_matchers(s) == Err::<
            Seq<u8>,
            EventProcessorError,
        >(e),
        spec_try_encode_matcher(s[0]) matches Ok(h) ==> (match spec_try_encode_matchers(
            s.drop_first(),
        ) {
            Ok(t) => spec_try_encode_matchers(s) == Ok::<Seq<u8>, EventProcessorError>(h + t),
            Err(e) => spec_try_encode_matchers(s) == Err::<Seq<u8>, EventProcessorError>(e),
        }),
{
}

/// One unfolding of the item-sequence encoder: the head item decides, then
/// the rest of the sequence.
pub(crate) proof fn lemma_try_encode_event_processors_unfold(s: Seq<EventProcessorView>)
    requires
        s.len() > 0,
    ensures
        spec_try_encode_event_processor(s[0]) matches Err(e) ==> spec_try_encode_event_processors(s)
            == Err::<Seq<u8>, EventProcessorError>(e),
        spec_try_encode_event_processor(s[0]) matches Ok(h) ==> (match
        spec_try_encode_event_processors(s.drop_first()) {
            Ok(t) => spec_try_encode_event_processors(s) == Ok::<Seq<u8>, EventProcessorError>(
                h + t,
            ),
            Err(e) => spec_try_encode_event_processors(s) == Err::<Seq<u8>, EventProcessorError>(e),
        }),
{
}

/// One unfolding of the matcher-sequence decoder: the matcher at `off`
/// decides, then the remaining `n - 1` matchers after it.
pub(crate) proof fn lemma_decode_matchers_unfold(b: Seq<u8>, off: int, n: nat)
    requires
        n > 0,
    ensures
        spec_decode_matcher(b, off) matches Err(e) ==> spec_decode_matchers(b, off, n) == Err::<
            (Seq<MatcherView>, int),
            EventProcessorError,
        >(e),
        spec_decode_matcher(b, off) matches Ok((m0, e1)) ==> (match spec_decode_matchers(
            b,
            e1,
            (n - 1) as nat,
        ) {
            Ok((s1, e2)) => spec_decode_matchers(b, off, n) == Ok::<
                (Seq<MatcherView>, int),
                EventProcessorError,
            >((seq![m0] + s1, e2)),
            Err(e) => spec_decode_matchers(b, off, n) == Err::<
                (Seq<MatcherView>, int),
                EventProcessorError,
            >(e),
        }),
{
}

/// One unfolding of the item-sequence decoder: the item at `off` decides,
/// then the remaining `n - 1` items after it.
pub(crate) proof fn lemma_decode_event_processors_unfold(b: Seq<u8>, off: int, n: nat)
    requires
        n > 0,
    ensures
        spec_decode_event_processor(b, off) matches Err(e) ==> spec_decode_event_processors(
            b,
            off,
            n,
        ) == Err::<(Seq<EventProcessorView>, int), EventProcessorError>(e),
        spec_decode_event_processor(b, off) matches Ok((p0, e1)) ==> (match
        spec_decode_event_processors(b, e1, (n - 1) as nat) {
            Ok((s1, e2)) => spec_decode_event_processors(b, off, n) == Ok::<
                (Seq<EventProcessorView>, int),
                EventProcessorError,
            >((seq![p0] + s1, e2)),
            Err(e) => spec_decode_event_processors(b, off, n) == Err::<
                (Seq<EventProcessorView>, int),
                EventProcessorError,
            >(e),
        }),
{
}

} // verus!
