//! Executable codec for the rule list.
//!
//! [`EventProcessorReader`] turns a byte buffer into the list of event
//! processors it encodes; [`EventProcessorWriter`] does the reverse.  Both
//! are verified against the spec codec of [`crate::wire`]: the reader
//! returns exactly what [`crate::wire::spec_decode_rule_list`] says the
//! bytes mean, error included, and the writer appends exactly the bytes of
//! [`crate::wire::spec_try_encode_rule_list`], or reports its error with the
//! output buffer untouched.

use vstd::prelude::*;

pub use crate::rules::EventProcessor;
pub use crate::rules::EventProcessorError;
pub use crate::rules::Extractor;
pub use crate::rules::Filter;
pub use crate::rules::Matcher;
pub use crate::rules::Producer;

use crate::rules::EventProcessorView;
use crate::rules::MatcherView;
use crate::rules::TaggedRecordView;
use crate::rules::extractor_payload_size;
use crate::rules::filter_payload_size;
use crate::rules::producer_payload_size;
use crate::rules::wf_event_processor;
use crate::rules::wf_extractor;
use crate::rules::wf_filter;
use crate::rules::wf_matcher;
use crate::rules::wf_producer;
use crate::rules::wf_rule_list;
use crate::wire::lemma_decode_event_processors_unfold;
use crate::wire::lemma_decode_matchers_unfold;
use crate::wire::lemma_try_encode_event_processors_unfold;
use crate::wire::lemma_try_encode_matchers_unfold;
use crate::wire::read_u16_be;
use crate::wire::read_u32_be;
use crate::wire::spec_decode_event_processor;
use crate::wire::spec_decode_event_processors;
use crate::wire::spec_decode_extractor;
use crate::wire::spec_decode_filter;
use crate::wire::spec_decode_matcher;
use crate::wire::spec_decode_matchers;
use crate::wire::spec_decode_producer;
use crate::wire::spec_decode_rule_list;
use crate::wire::spec_try_encode_event_processor;
use crate::wire::spec_try_encode_event_processors;
use crate::wire::spec_try_encode_extractor;
use crate::wire::spec_try_encode_filter;
use crate::wire::spec_try_encode_matcher;
use crate::wire::spec_try_encode_matchers;
use crate::wire::spec_try_encode_producer;
use crate::wire::spec_try_encode_rule_list;
use crate::wire::spec_u16_be;
use crate::wire::spec_u32_at;
use crate::wire::spec_u32_be;
use crate::wire::write_u16_be;
use crate::wire::write_u32_be;

verus! {

/// Copies `count` bytes of `data` starting at `start` into a fresh buffer.
fn copy_payload(data: &Vec<u8>, start: usize, count: usize) -> (r: Vec<u8>)
    requires
        start + count <= data@.len(),
    ensures
        r@ == data@.subrange(start as int, start as int + count as int),
{
    let n = data.len();
    let mut r: Vec<u8> = Vec::new();
    let mut i: usize = 0;
    while i < count
        invariant
            i <= count,
            n == data@.len(),
            start + count <= n,
            r@ == data@.subrange(start as int, start as int + i as int),
        decreases count - i,
    {
        r.push(data[start + i]);
        i = i + 1;
        proof {
            assert(r@ =~= data@.subrange(start as int, start as int + i as int));
        }
    }
    r
}

/// Appends a copy of `src` to `data`.
fn append_bytes(data: &mut Vec<u8>, src: &Vec<u8>)
    ensures
        final(data)@ == old(data)@ + src@,
{
    let ghost data0 = data@;
    let mut i: usize = 0;
    while i < src.len()
        invariant
            i <= src@.len(),
            data@ == data0 + src@.subrange(0, i as int),
        decreases src@.len() - i,
    {
        data.push(src[i]);
        i = i + 1;
        proof {
            assert(data@ =~= data0 + src@.subrange(0, i as int));
        }
    }
    proof {
        assert(data0 + src@.subrange(0, src@.len() as int) =~= data0 + src@);
    }
}

/// Decodes rule lists out of byte buffers.
pub struct EventProcessorReader {}

impl EventProcessorReader {
    /// Decodes one extractor record at `offset`.
    fn read_extractor_from_vec(data: &Vec<u8>, offset: usize) -> (r: Result<
        (Extractor, usize),
        EventProcessorError,
    >)
        ensures
            r matches Ok((e, end)) ==> spec_decode_extractor(data@, offset as int) == Ok::<
                (TaggedRecordView, int),
                EventProcessorError,
            >((e.deep_view(), end as int)) && offset <= end <= data@.len() && wf_extractor(
                e.deep_view(),
            ),
            r matches Err(err) ==> spec_decode_extractor(data@, offset as int) == Err::<
                (TaggedRecordView, int),
                EventProcessorError,
            >(err),
    {
        let n = data.len();
        if offset > n || n - offset < 2 {
            return Err(EventProcessorError::WrongSize);
        }
        let code = read_u16_be(data, offset);
        match extractor_payload_size(code) {
            None => Err(EventProcessorError::UnknownExtractor),
            Some(size) => {
                if n - (offset + 2) < size {
                    Err(EventProcessorError::WrongSize)
                } else {
                    let payload = copy_payload(data, offset + 2, size);
                    Ok((Extractor { code, payload }, offset + 2 + size))
                }
            },
        }
    }

    /// Decodes one filter record at `offset`.
    fn read_filter_from_vec(data: &Vec<u8>, offset: usize) -> (r: Result<
        (Filter, usize),
        EventProcessorError,
    >)
        ensures
            r matches Ok((f, end)) ==> spec_decode_filter(data@, offset as int) == Ok::<
                (TaggedRecordView, int),
                EventProcessorError,
            >((f.deep_view(), end as int)) && offset <= end <= data@.len() && wf_filter(
                f.deep_view(),
            ),
            r matches Err(err) ==> spec_decode_filter(data@, offset as int) == Err::<
                (TaggedRecordView, int),
                EventProcessorError,
            >(err),
    {
        let n = data.len();
        if offset > n || n - offset < 2 {
            return Err(EventProcessorError::WrongSize);
        }
        let code = read_u16_be(data, offset);
        match filter_payload_size(code) {
            None => Err(EventProcessorError::UnknownFilter),
            Some(size) => {
                if n - (offset + 2) < size {
                    Err(EventProcessorError::WrongSize)
                } else {
                    let payload = copy_payload(data, offset + 2, size);
                    Ok((Filter { code, payload }, offset + 2 + size))
                }
            },
        }
    }

    /// Decodes one producer record at `offset`.
    fn read_producer_from_vec(data: &Vec<u8>, offset: usize) -> (r: Result<
        (Producer, usize),
        EventProcessorError,
    >)
        ensures
            r matches Ok((p, end)) ==> spec_decode_producer(data@, offset as int) == Ok::<
                (TaggedRecordView, int),
                EventProcessorError,
            >((p.deep_view(), end as int)) && offset <= end <= data@.len() && wf_producer(
                p.deep_view(),
            ),
            r matches Err(err) ==> spec_decode_producer(data@, offset as int) == Err::<
                (TaggedRecordView, int),
                EventProcessorError,
            >(err),
    {
        let n = data.len();
        if offset > n || n - offset < 2 {
            return Err(EventProcessorError::WrongSize);
        }
        let code = read_u16_be(data, offset);
        match producer_payload_size(code) {
            None => Err(EventProcessorError::UnknownProducer),
            Some(size) => {
                if n - (offset + 2) < size {
                    Err(EventProcessorError::WrongSize)
                } else {
                    let payload = copy_payload(data, offset + 2, size);
                    Ok((Producer { code, payload }, offset + 2 + size))
                }
            },
        }
    }

    /// Decodes one matcher — an extractor record then a filter record — at
    /// `offset`.
    fn read_matcher_from_vec(data: &Vec<u8>, offset: usize) -> (r: Result<
        (Matcher, usize),
        EventProcessorError,
    >)
        ensures
            r matches Ok((m, end)) ==> spec_decode_matcher(data@, offset as int) == Ok::<
                (MatcherView, int),
                EventProcessorError,
            >((m.deep_view(), end as int)) && offset <= end <= data@.len() && wf_matcher(
                m.deep_view(),
            ),
            r matches Err(err) ==> spec_decode_matcher(data@, offset as int) == Err::<
                (MatcherView, int),
                EventProcessorError,
            >(err),
    {
        let (extractor, o2) = match Self::read_extractor_from_vec(data, offset) {
            Ok(v) => v,
            Err(e) => {
                return Err(e);
            },
        };
        let (filter, o3) = match Self::read_filter_from_vec(data, o2) {
            Ok(v) => v,
            Err(e) => {
                return Err(e);
            },
        };
        Ok((Matcher { extractor, filter }, o3))
    }

    /// Decodes one event processor — matcher count, matchers, trailing
    /// extractor and producer — at `offset`.
    fn read_event_processor_from_vec(data: &Vec<u8>, offset: usize) -> (r: Result<
        (EventProcessor, usize),
        EventProcessorError,
    >)
        ensures
            r matches Ok((p, end)) ==> spec_decode_event_processor(data@, offset as int) == Ok::<
                (EventProcessorView, int),
                EventProcessorError,
            >((p.deep_view(), end as int)) && offset <= end <= data@.len() && wf_event_processor(
                p.deep_view(),
            ),
            r matches Err(err) ==> spec_decode_event_processor(data@, offset as int) == Err::<
                (EventProcessorView, int),
                EventProcessorError,
            >(err),
    {
        let n = data.len();
        if offset > n || n - offset < 4 {
            return Err(EventProcessorError::WrongSize);
        }
        let matcher_count = read_u32_be(data, offset);
        let ghost b = data@;
        let ghost total = matcher_count as nat;
        let mut matchers: Vec<Matcher> = Vec::new();
        let mut off: usize = offset + 4;
        let mut i: u32 = 0;
        while i < matcher_count
            invariant
                i <= matcher_count,
                offset + 4 <= off <= b.len(),
                b == data@,
                total == matcher_count as nat,
                total == spec_u32_at(b, offset as int) as nat,
                matchers@.len() == i,
                forall|j: int|
                    0 <= j < matchers.deep_view().len() ==> wf_matcher(matchers.deep_view()[j]),
                (match spec_decode_matchers(b, off as int, (matcher_count - i) as nat) {
                    Ok((s1, e2)) => spec_decode_matchers(b, offset + 4, total) == Ok::<
                        (Seq<MatcherView>, int),
                        EventProcessorError,
                    >((matchers.deep_view() + s1, e2)),
                    Err(e) => spec_decode_matchers(b, offset + 4, total) == Err::<
                        (Seq<MatcherView>, int),
                        EventProcessorError,
                    >(e),
                }),
            decreases matcher_count - i,
        {
            proof {
                lemma_decode_matchers_unfold(b, off as int, (matcher_count - i) as nat);
            }
            match Self::read_matcher_from_vec(data, off) {
                Err(e) => {
                    return Err(e);
                },
                Ok((m, o2)) => {
                    let ghost matchers0 = matchers.deep_view();
                    matchers.push(m);
                    proof {
                        assert(matchers.deep_view() =~= matchers0 + seq![m.deep_view()]);
                        assert(matchers0 + (seq![m.deep_view()] + spec_decode_matchers(
                            b,
                            o2 as int,
                            (matcher_count - i - 1) as nat,
                        )->Ok_0.0) =~= (matchers0 + seq![m.deep_view()]) + spec_decode_matchers(
                            b,
                            o2 as int,
                            (matcher_count - i - 1) as nat,
                        )->Ok_0.0);
                    }
                    off = o2;
                    i = i + 1;
                },
            }
        }
        proof {
            assert(matchers.deep_view() + Seq::<MatcherView>::empty() =~= matchers.deep_view());
        }
        let (extractor, o3) = match Self::read_extractor_from_vec(data, off) {
            Ok(v) => v,
            Err(e) => {
                return Err(e);
            },
        };
        let (producer, o4) = match Self::read_producer_from_vec(data, o3) {
            Ok(v) => v,
            Err(e) => {
                return Err(e);
            },
        };
        Ok((EventProcessor { matchers, extractor, producer }, o4))
    }

    /// Decodes a whole rule-list payload: a 32-bit item count followed by
    /// that many items.  Returns exactly what the wire format assigns to the
    /// buffer: the decoded list, or the first error the format prescribes.
    /// Bytes after the last item are ignored.
    pub fn read_from_vec(data: &Vec<u8>) -> (r: Result<Vec<EventProcessor>, EventProcessorError>)
        ensures
            r matches Ok(eps) ==> spec_decode_rule_list(data@) == Ok::<
                Seq<EventProcessorView>,
                EventProcessorError,
            >(eps.deep_view()) && wf_rule_list(eps.deep_view()),
            r matches Err(err) ==> spec_decode_rule_list(data@) == Err::<
                Seq<EventProcessorView>,
                EventProcessorError,
            >(err),
    {
        let n = data.len();
        if n < 4 {
            return Err(EventProcessorError::WrongSize);
        }
        let count = read_u32_be(data, 0);
        let ghost b = data@;
        let ghost total = count as nat;
        let mut event_processors: Vec<EventProcessor> = Vec::new();
        let mut off: usize = 4;
        let mut i: u32 = 0;
        while i < count
            invariant
                i <= count,
                4 <= off <= b.len(),
                b == data@,
                total == count as nat,
                total == spec_u32_at(b, 0) as nat,
                event_processors@.len() == i,
                forall|j: int|
                    0 <= j < event_processors.deep_view().len() ==> wf_event_processor(
                        event_processors.deep_view()[j],
                    ),
                (match spec_decode_event_processors(b, off as int, (count - i) as nat) {
                    Ok((s1, e2)) => spec_decode_event_processors(b, 4, total) == Ok::<
                        (Seq<EventProcessorView>, int),
                        EventProcessorError,
                    >((event_processors.deep_view() + s1, e2)),
                    Err(e) => spec_decode_event_processors(b, 4, total) == Err::<
                        (Seq<EventProcessorView>, int),
                        EventProcessorError,
                    >(e),
                }),
            decreases count - i,
        {
            proof {
                lemma_decode_event_processors_unfold(b, off as int, (count - i) as nat);
            }
            match Self::read_event_processor_from_vec(data, off) {
                Err(e) => {
                    return Err(e);
                },
                Ok((p, o2)) => {
                    let ghost eps0 = event_processors.deep_view();
                    event_processors.push(p);
                    proof {
                        assert(event_processors.deep_view() =~= eps0 + seq![p.deep_view()]);
                        assert(eps0 + (seq![p.deep_view()] + spec_decode_event_processors(
                            b,
                            o2 as int,
                            (count - i - 1) as nat,
                        )->Ok_0.0) =~= (eps0 + seq![p.deep_view()]) + spec_decode_event_processors(
                            b,
                            o2 as int,
                            (count - i - 1) as nat,
                        )->Ok_0.0);
                    }
                    off = o2;
                    i = i + 1;
                },
            }
        }
        proof {
            assert(event_processors.deep_view() + Seq::<EventProcessorView>::empty()
                =~= event_processors.deep_view());
        }
        Ok(event_processors)
    }
}

/// Encodes rule lists into byte buffers.
pub struct EventProcessorWriter {}

impl EventProcessorWriter {
    /// Appends one extractor record — its code, then its payload — to
    /// `data`.  Rejects a code outside the extractor registry with
    /// `UnknownExtractor` and a payload of the wrong size with `WrongSize`,
    /// leaving `data` untouched either way.
    pub fn write_extractor_to_vec(data: &mut Vec<u8>, extractor: &Extractor) -> (r: Result<
        (),
        EventProcessorError,
    >)
        ensures
            r is Ok ==> (spec_try_encode_extractor(extractor.deep_view()) matches Ok(enc)
                && final(data)@ == old(data)@ + enc),
            r matches Err(err) ==> spec_try_encode_extractor(extractor.deep_view()) == Err::<
                Seq<u8>,
                EventProcessorError,
            >(err) && final(data)@ == old(data)@,
    {
        match extractor_payload_size(extractor.code) {
            None => Err(EventProcessorError::UnknownExtractor),
            Some(size) => {
                if extractor.payload.len() != size {
                    Err(EventProcessorError::WrongSize)
                } else {
                    write_u16_be(data, extractor.code);
                    append_bytes(data, &extractor.payload);
                    proof {
                        assert(data@ =~= old(data)@ + (spec_u16_be(extractor.code)
                            + extractor.payload@));
                    }
                    Ok(())
                }
            },
        }
    }

    /// Appends one filter record to `data`; same shape as the extractor
    /// case, with the filter registry and `UnknownFilter`.
    fn write_filter_to_vec(data: &mut Vec<u8>, filter: &Filter) -> (r: Result<
        (),
        EventProcessorError,
    >)
        ensures
            r is Ok ==> (spec_try_encode_filter(filter.deep_view()) matches Ok(enc)
                && final(data)@ == old(data)@ + enc),
            r matches Err(err) ==> spec_try_encode_filter(filter.deep_view()) == Err::<
                Seq<u8>,
                EventProcessorError,
            >(err) && final(data)@ == old(data)@,
    {
        match filter_payload_size(filter.code) {
            None => Err(EventProcessorError::UnknownFilter),
            Some(size) => {
                if filter.payload.len() != size {
                    Err(EventProcessorError::WrongSize)
                } else {
                    write_u16_be(data, filter.code);
                    append_bytes(data, &filter.payload);
                    proof {
                        assert(data@ =~= old(data)@ + (spec_u16_be(filter.code)
                            + filter.payload@));
                    }
                    Ok(())
                }
            },
        }
    }

    /// Appends one producer record to `data`; same shape as the extractor
    /// case, with the producer registry and `UnknownProducer`.
    fn write_producer_to_vec(data: &mut Vec<u8>, producer: &Producer) -> (r: Result<
        (),
        EventProcessorError,
    >)
        ensures
            r is Ok ==> (spec_try_encode_producer(producer.deep_view()) matches Ok(enc)
                && final(data)@ == old(data)@ + enc),
            r matches Err(err) ==> spec_try_encode_producer(producer.deep_view()) == Err::<
                Seq<u8>,
                EventProcessorError,
            >(err) && final(data)@ == old(data)@,
    {
        match producer_payload_size(producer.code) {
            None => Err(EventProcessorError::UnknownProducer),
            Some(size) => {
                if producer.payload.len() != size {
                    Err(EventProcessorError::WrongSize)
                } else {
                    write_u16_be(data, producer.code);
                    append_bytes(data, &producer.payload);
                    proof {
                        assert(data@ =~= old(data)@ + (spec_u16_be(producer.code)
                            + producer.payload@));
                    }
                    Ok(())
                }
            },
        }
    }

    /// Appends one matcher — its extractor record then its filter record —
    /// to `data`.  On an error, `data` may hold the part already written;
    /// callers that must leave their output untouched write into a scratch
    /// buffer first.
    fn write_matcher_to_vec(data: &mut Vec<u8>, matcher: &Matcher) -> (r: Result<
        (),
        EventProcessorError,
    >)
        ensures
            r is Ok ==> (spec_try_encode_matcher(matcher.deep_view()) matches Ok(enc)
                && final(data)@ == old(data)@ + enc),
            r matches Err(err) ==> spec_try_encode_matcher(matcher.deep_view()) == Err::<
                Seq<u8>,
                EventProcessorError,
            >(err),
    {
        if let Err(e) = Self::write_extractor_to_vec(data, &matcher.extractor) {
            return Err(e);
        }
        if let Err(e) = Self::write_filter_to_vec(data, &matcher.filter) {
            return Err(e);
        }
        proof {
            assert(old(data)@ + spec_try_encode_extractor(matcher.extractor.deep_view())->Ok_0
                + spec_try_encode_filter(matcher.filter.deep_view())->Ok_0 =~= old(data)@ + (
            spec_try_encode_extractor(matcher.extractor.deep_view())->Ok_0 + spec_try_encode_filter(
                matcher.filter.deep_view(),
            )->Ok_0));
        }
        Ok(())
    }

    /// Appends one event processor — its matcher count, its matchers, its
    /// trailing extractor and producer records — to `data`.  On an error,
    /// `data` may hold the part already written.
    fn write_event_processor_to_vec(data: &mut Vec<u8>, event_processor: &EventProcessor) -> (r:
        Result<(), EventProcessorError>)
        ensures
            r is Ok ==> (spec_try_encode_event_processor(event_processor.deep_view()) matches Ok(enc)
                && final(data)@ == old(data)@ + enc),
            r matches Err(err) ==> spec_try_encode_event_processor(event_processor.deep_view())
                == Err::<Seq<u8>, EventProcessorError>(err),
    {
        let mc = event_processor.matchers.len();
        if mc > u32::MAX as usize {
            return Err(EventProcessorError::WrongSize);
        }
        let ghost ms = event_processor.matchers.deep_view();
        let ghost data0 = data@;
        write_u32_be(data, mc as u32);
        let ghost aftercount = data@;
        proof {
            assert(ms.skip(0) =~= ms);
            if spec_try_encode_matchers(ms) is Ok {
                assert(aftercount + spec_try_encode_matchers(ms)->Ok_0 =~= aftercount
                    + spec_try_encode_matchers(ms)->Ok_0);
            }
        }
        let mut i: usize = 0;
        while i < mc
            invariant
                i <= mc == event_processor.matchers@.len(),
                mc <= u32::MAX,
                ms == event_processor.matchers.deep_view(),
                aftercount == data0 + spec_u32_be(mc as u32),
                (match spec_try_encode_matchers(ms.skip(i as int)) {
                    Ok(t) => spec_try_encode_matchers(ms) matches Ok(full) && data@ + t
                        == aftercount + full,
                    Err(e) => spec_try_encode_matchers(ms) == Err::<Seq<u8>, EventProcessorError>(
                        e,
                    ),
                }),
            decreases mc - i,
        {
            proof {
                assert(ms.skip(i as int).len() > 0);
                lemma_try_encode_matchers_unfold(ms.skip(i as int));
                assert(ms.skip(i as int)[0] == event_processor.matchers@[i as int].deep_view());
                assert(ms.skip(i as int).drop_first() =~= ms.skip(i as int + 1));
            }
            match Self::write_matcher_to_vec(data, &event_processor.matchers[i]) {
                Err(e) => {
                    return Err(e);
                },
                Ok(()) => {
                    i = i + 1;
                },
            }
        }
        proof {
            assert(ms.skip(mc as int) =~= Seq::<MatcherView>::empty());
            assert(spec_try_encode_matchers(ms) matches Ok(full) && data@ == aftercount + full)
                by {
                assert(data@ + Seq::<u8>::empty() =~= data@);
            }
        }
        if let Err(e) = Self::write_extractor_to_vec(data, &event_processor.extractor) {
            return Err(e);
        }
        if let Err(e) = Self::write_producer_to_vec(data, &event_processor.producer) {
            return Err(e);
        }
        proof {
            let full = spec_try_encode_matchers(ms)->Ok_0;
            let ex = spec_try_encode_extractor(event_processor.extractor.deep_view())->Ok_0;
            let pr = spec_try_encode_producer(event_processor.producer.deep_view())->Ok_0;
            assert(data@ =~= data0 + (spec_u32_be(mc as u32) + full + ex + pr));
        }
        Ok(())
    }

    /// Appends the encoding of a whole rule list — a 32-bit item count
    /// followed by the items — to `data`.  Succeeds exactly when every
    /// record of every item carries a registered code with a payload of the
    /// registered size and the counts fit the 32-bit count fields; on an
    /// error, `data` is left untouched and the error names the first
    /// offending record in encoding order.
    pub fn write_to_vec(data: &mut Vec<u8>, event_processors: &Vec<EventProcessor>) -> (r: Result<
        (),
        EventProcessorError,
    >)
        ensures
            r is Ok ==> (spec_try_encode_rule_list(event_processors.deep_view()) matches Ok(enc)
                && final(data)@ == old(data)@ + enc),
            r matches Err(err) ==> spec_try_encode_rule_list(event_processors.deep_view()) == Err::<
                Seq<u8>,
                EventProcessorError,
            >(err) && final(data)@ == old(data)@,
    {
        let n_items = event_processors.len();
        if n_items > u32::MAX as usize {
            return Err(EventProcessorError::WrongSize);
        }
        let ghost l = event_processors.deep_view();
        let mut buf: Vec<u8> = Vec::new();
        proof {
            assert(l.skip(0) =~= l);
            if spec_try_encode_event_processors(l) is Ok {
                assert(Seq::<u8>::empty() + spec_try_encode_event_processors(l)->Ok_0
                    =~= spec_try_encode_event_processors(l)->Ok_0);
            }
        }
        let mut i: usize = 0;
        while i < n_items
            invariant
                i <= n_items == event_processors@.len(),
                n_items <= u32::MAX,
                l == event_processors.deep_view(),
                (match spec_try_encode_event_processors(l.skip(i as int)) {
                    Ok(t) => spec_try_encode_event_processors(l) matches Ok(full) && buf@ + t
                        == full,
                    Err(e) => spec_try_encode_event_processors(l) == Err::<
                        Seq<u8>,
                        EventProcessorError,
                    >(e),
                }),
            decreases n_items - i,
        {
            proof {
                assert(l.skip(i as int).len() > 0);
                lemma_try_encode_event_processors_unfold(l.skip(i as int));
                assert(l.skip(i as int)[0] == event_processors@[i as int].deep_view());
                assert(l.skip(i as int).drop_first() =~= l.skip(i as int + 1));
            }
            match Self::write_event_processor_to_vec(&mut buf, &event_processors[i]) {
                Err(e) => {
                    return Err(e);
                },
                Ok(()) => {
                    i = i + 1;
                },
            }
        }
        proof {
            assert(l.skip(n_items as int) =~= Seq::<EventProcessorView>::empty());
            assert(spec_try_encode_event_processors(l) matches Ok(full) && buf@ == full) by {
                assert(buf@ + Seq::<u8>::empty() =~= buf@);
            }
        }
        write_u32_be(data, n_items as u32);
        data.append(&mut buf);
        proof {
            assert(data@ =~= old(data)@ + (spec_u32_be(n_items as u32)
                + spec_try_encode_event_processors(l)->Ok_0));
        }
        Ok(())
    }
}

} // verus!
