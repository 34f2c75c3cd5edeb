//! Laws of the rule-list wire format.
//!
//! The public lemmas state, over the spec codec of [`crate::wire`]:
//! - a well-formed rule list encodes successfully and decodes back to
//!   itself ([`lemma_rule_list_round_trip`]);
//! - every strict prefix of a valid encoding is rejected with `WrongSize`
//!   ([`lemma_truncated_rule_list_rejected`]);
//! - a tagged record whose code lies outside its registry is rejected with
//!   the matching `Unknown*` error ([`lemma_unknown_tag_rejected`]).

use vstd::prelude::*;

use crate::rules::EventProcessorError;
use crate::rules::EventProcessorView;
use crate::rules::MatcherView;
use crate::rules::TaggedRecordView;
use crate::rules::spec_extractor_payload_size;
use crate::rules::spec_filter_payload_size;
use crate::rules::spec_producer_payload_size;
use crate::rules::wf_event_processor;
use crate::rules::wf_extractor;
use crate::rules::wf_filter;
use crate::rules::wf_matcher;
use crate::rules::wf_producer;
use crate::rules::wf_rule_list;
use crate::wire::spec_decode_event_processor;
use crate::wire::spec_decode_event_processors;
use crate::wire::spec_decode_extractor;
use crate::wire::spec_decode_filter;
use crate::wire::spec_decode_matcher;
use crate::wire::spec_decode_matchers;
use crate::wire::spec_decode_producer;
use crate::wire::spec_decode_rule_list;
use crate::wire::spec_try_encode_event_processor;
use crate::wire::spec_try_encode_event_processors;
use crate::wire::spec_try_encode_extractor;
use crate::wire::spec_try_encode_filter;
use crate::wire::spec_try_encode_matcher;
use crate::wire::spec_try_encode_matchers;
use crate::wire::spec_try_encode_producer;
use crate::wire::spec_try_encode_rule_list;
use crate::wire::spec_u16_at;
use crate::wire::spec_u16_be;
use crate::wire::spec_u32_at;
use crate::wire::spec_u32_be;

verus! {

/// The big-endian 16-bit encoding reads back as the encoded value, wherever
/// it stands in a buffer.
proof fn lemma_u16_be_at(v: u16, pre: Seq<u8>, suf: Seq<u8>)
    ensures
        spec_u16_at(pre + spec_u16_be(v) + suf, pre.len() as int) == v,
{
    let b = pre + spec_u16_be(v) + suf;
    let off = pre.len() as int;
    assert(b[off] == (v / 0x100) as u8);
    assert(b[off + 1] == (v % 0x100) as u8);
}

/// The big-endian 32-bit encoding reads back as the encoded value, wherever
/// it stands in a buffer.
proof fn lemma_u32_be_at(v: u32, pre: Seq<u8>, suf: Seq<u8>)
    ensures
        spec_u32_at(pre + spec_u32_be(v) + suf, pre.len() as int) == v,
{
    let b = pre + spec_u32_be(v) + suf;
    let off = pre.len() as int;
    assert(b[off] == (v / 0x1000000) as u8);
    assert(b[off + 1] == ((v / 0x10000) % 0x100) as u8);
    assert(b[off + 2] == ((v / 0x100) % 0x100) as u8);
    assert(b[off + 3] == (v % 0x100) as u8);
}

/// Re-association of a buffer built from two segments between a prefix and
/// a suffix.
proof fn lemma_assoc_split<T>(pre: Seq<T>, x: Seq<T>, y: Seq<T>, suf: Seq<T>)
    ensures
        pre + (x + y) + suf == pre + x + (y + suf),
        pre + (x + y) + suf == (pre + x) + y + suf,
{
    assert(pre + (x + y) + suf =~= pre + x + (y + suf));
    assert(pre + (x + y) + suf =~= (pre + x) + y + suf);
}

/// Re-association of a buffer built from an item's four segments between a
/// prefix and a suffix: one equation per segment position.
proof fn lemma_assoc_item<T>(pre: Seq<T>, a: Seq<T>, b: Seq<T>, c: Seq<T>, d: Seq<T>, suf: Seq<T>)
    ensures
        pre + (a + b + c + d) + suf == pre + a + (b + c + d + suf),
        pre + (a + b + c + d) + suf == (pre + a) + b + (c + d + suf),
        pre + (a + b + c + d) + suf == (pre + a + b) + c + (d + suf),
        pre + (a + b + c + d) + suf == (pre + a + b + c) + d + suf,
{
    assert(pre + (a + b + c + d) + suf =~= pre + a + (b + c + d + suf));
    assert(pre + (a + b + c + d) + suf =~= (pre + a) + b + (c + d + suf));
    assert(pre + (a + b + c + d) + suf =~= (pre + a + b) + c + (d + suf));
    assert(pre + (a + b + c + d) + suf =~= (pre + a + b + c) + d + suf);
}

/// A buffer of two segments, seen with an empty prefix or an empty suffix.
proof fn lemma_empty_ends<T>(x: Seq<T>, y: Seq<T>)
    ensures
        x + y == Seq::<T>::empty() + x + y,
        x + y == x + y + Seq::<T>::empty(),
{
    assert(x + y =~= Seq::<T>::empty() + x + y);
    assert(x + y =~= x + y + Seq::<T>::empty());
}

/// A well-formed extractor record encodes, and its encoding decodes back to
/// the record, wherever it stands in a buffer.
proof fn lemma_decode_extractor_encoded(t: TaggedRecordView, pre: Seq<u8>, suf: Seq<u8>)
    requires
        wf_extractor(t),
    ensures
        spec_try_encode_extractor(t) == Ok::<Seq<u8>, EventProcessorError>(
            spec_u16_be(t.code) + t.payload,
        ),
        spec_decode_extractor(pre + (spec_u16_be(t.code) + t.payload) + suf, pre.len() as int)
            == Ok::<(TaggedRecordView, int), EventProcessorError>(
            (t, pre.len() + 2 + t.payload.len() as int),
        ),
{
    let enc = spec_u16_be(t.code) + t.payload;
    let b = pre + enc + suf;
    let off = pre.len() as int;
    lemma_assoc_split(pre, spec_u16_be(t.code), t.payload, suf);
    lemma_u16_be_at(t.code, pre, t.payload + suf);
    assert(spec_u16_at(b, off) == t.code);
    let n = t.payload.len();
    assert(b.subrange(off + 2, off + 2 + n) =~= t.payload);
}

/// A well-formed filter record encodes, and its encoding decodes back to the
/// record, wherever it stands in a buffer.
proof fn lemma_decode_filter_encoded(t: TaggedRecordView, pre: Seq<u8>, suf: Seq<u8>)
    requires
        wf_filter(t),
    ensures
        spec_try_encode_filter(t) == Ok::<Seq<u8>, EventProcessorError>(
            spec_u16_be(t.code) + t.payload,
        ),
        spec_decode_filter(pre + (spec_u16_be(t.code) + t.payload) + suf, pre.len() as int)
            == Ok::<(TaggedRecordView, int), EventProcessorError>(
            (t, pre.len() + 2 + t.payload.len() as int),
        ),
{
    let enc = spec_u16_be(t.code) + t.payload;
    let b = pre + enc + suf;
    let off = pre.len() as int;
    lemma_assoc_split(pre, spec_u16_be(t.code), t.payload, suf);
    lemma_u16_be_at(t.code, pre, t.payload + suf);
    assert(spec_u16_at(b, off) == t.code);
    let n = t.payload.len();
    assert(b.subrange(off + 2, off + 2 + n) =~= t.payload);
}

/// A well-formed producer record encodes, and its encoding decodes back to
/// the record, wherever it stands in a buffer.
proof fn lemma_decode_producer_encoded(t: TaggedRecordView, pre: Seq<u8>, suf: Seq<u8>)
    requires
        wf_producer(t),
    ensures
        spec_try_encode_producer(t) == Ok::<Seq<u8>, EventProcessorError>(
            spec_u16_be(t.code) + t.payload,
        ),
        spec_decode_producer(pre + (spec_u16_be(t.code) + t.payload) + suf, pre.len() as int)
            == Ok::<(TaggedRecordView, int), EventProcessorError>(
            (t, pre.len() + 2 + t.payload.len() as int),
        ),
{
    let enc = spec_u16_be(t.code) + t.payload;
    let b = pre + enc + suf;
    let off = pre.len() as int;
    lemma_assoc_split(pre, spec_u16_be(t.code), t.payload, suf);
    lemma_u16_be_at(t.code, pre, t.payload + suf);
    assert(spec_u16_at(b, off) == t.code);
    let n = t.payload.len();
    assert(b.subrange(off + 2, off + 2 + n) =~= t.payload);
}

/// A well-formed matcher encodes, and its encoding decodes back to the
/// matcher, wherever it stands in a buffer.
#[verifier::rlimit(100)]
#[verifier::spinoff_prover]
proof fn lemma_decode_matcher_encoded(m: MatcherView, pre: Seq<u8>, suf: Seq<u8>)
    requires
        wf_matcher(m),
    ensures
        spec_try_encode_matcher(m) matches Ok(enc) && spec_decode_matcher(
            pre + enc + suf,
            pre.len() as int,
        ) == Ok::<(MatcherView, int), EventProcessorError>((m, pre.len() as int + enc.len())),
{
    let ex = spec_u16_be(m.extractor.code) + m.extractor.payload;
    let f = spec_u16_be(m.filter.code) + m.filter.payload;
    let enc = ex + f;
    let b = pre + enc + suf;
    let off = pre.len() as int;
    lemma_assoc_split(pre, ex, f, suf);
    lemma_decode_extractor_encoded(m.extractor, pre, f + suf);
    lemma_decode_filter_encoded(m.filter, pre + ex, suf);
}

/// A sequence of well-formed matchers encodes, and its encoding decodes back
/// to the sequence, wherever it stands in a buffer.
#[verifier::rlimit(100)]
#[verifier::spinoff_prover]
proof fn lemma_decode_matchers_encoded(s: Seq<MatcherView>, pre: Seq<u8>, suf: Seq<u8>)
    requires
        forall|i: int| 0 <= i < s.len() ==> wf_matcher(s[i]),
    ensures
        spec_try_encode_matchers(s) matches Ok(enc) && spec_decode_matchers(
            pre + enc + suf,
            pre.len() as int,
            s.len(),
        ) == Ok::<(Seq<MatcherView>, int), EventProcessorError>((s, pre.len() as int + enc.len())),
    decreases s.len(),
{
    if s.len() == 0 {
        let enc = spec_try_encode_matchers(s)->Ok_0;
        assert(enc =~= Seq::<u8>::empty());
        assert(s =~= Seq::<MatcherView>::empty());
    } else {
        let m0 = s[0];
        let rest = s.drop_first();
        assert(forall|i: int| 0 <= i < rest.len() ==> rest[i] == s[i + 1]);
        lemma_decode_matcher_encoded(m0, pre, spec_try_encode_matchers(rest)->Ok_0 + suf);
        let h = spec_try_encode_matcher(m0)->Ok_0;
        lemma_decode_matchers_encoded(rest, pre + h, suf);
        let t = spec_try_encode_matchers(rest)->Ok_0;
        let enc = h + t;
        let b = pre + enc + suf;
        lemma_assoc_split(pre, h, t, suf);
        assert(seq![m0] + rest =~= s);
    }
}

/// The encoding of an item's matcher count.
spec fn ep_cnt(p: EventProcessorView) -> Seq<u8> {
    spec_u32_be(p.matchers.len() as u32)
}

/// The encoding of an item's matcher sequence.
spec fn ep_ms(p: EventProcessorView) -> Seq<u8> {
    spec_try_encode_matchers(p.matchers)->Ok_0
}

/// The encoding of an item's trailing extractor record.
spec fn ep_ex(p: EventProcessorView) -> Seq<u8> {
    spec_u16_be(p.extractor.code) + p.extractor.payload
}

/// The encoding of an item's producer record.
spec fn ep_pr(p: EventProcessorView) -> Seq<u8> {
    spec_u16_be(p.producer.code) + p.producer.payload
}

/// The encoding of one whole item.
spec fn ep_enc(p: EventProcessorView) -> Seq<u8> {
    ep_cnt(p) + ep_ms(p) + ep_ex(p) + ep_pr(p)
}

/// The count and matcher segments of an embedded item encoding decode back
/// to the item's count and matchers.
#[verifier::rlimit(100)]
#[verifier::spinoff_prover]
proof fn lemma_event_processor_head_segments(p: EventProcessorView, pre: Seq<u8>, suf: Seq<u8>)
    requires
        wf_event_processor(p),
    ensures
        spec_try_encode_matchers(p.matchers) == Ok::<Seq<u8>, EventProcessorError>(ep_ms(p)),
        spec_u32_at(pre + ep_enc(p) + suf, pre.len() as int) == p.matchers.len() as u32,
        spec_decode_matchers(pre + ep_enc(p) + suf, pre.len() as int + 4, p.matchers.len()) == Ok::<
            (Seq<MatcherView>, int),
            EventProcessorError,
        >((p.matchers, pre.len() + 4 + ep_ms(p).len() as int)),
{
    let mc = p.matchers.len() as u32;
    let cnt = ep_cnt(p);
    let b = pre + ep_enc(p) + suf;
    lemma_decode_matchers_encoded(p.matchers, pre + cnt, ep_ex(p) + ep_pr(p) + suf);
    let ms = ep_ms(p);
    lemma_assoc_item(pre, cnt, ms, ep_ex(p), ep_pr(p), suf);
    lemma_u32_be_at(mc, pre, ms + ep_ex(p) + ep_pr(p) + suf);
}

/// The trailing extractor record of an embedded item encoding decodes back
/// to the item's extractor.
#[verifier::rlimit(100)]
#[verifier::spinoff_prover]
proof fn lemma_event_processor_extractor_segment(p: EventProcessorView, pre: Seq<u8>, suf: Seq<u8>)
    requires
        wf_event_processor(p),
    ensures
        spec_decode_extractor(pre + ep_enc(p) + suf, pre.len() as int + 4 + ep_ms(p).len())
            == Ok::<(TaggedRecordView, int), EventProcessorError>(
            (p.extractor, pre.len() + 4 + ep_ms(p).len() + ep_ex(p).len() as int),
        ),
{
    let cnt = ep_cnt(p);
    let ms = ep_ms(p);
    let ex = ep_ex(p);
    let pr = ep_pr(p);
    lemma_assoc_item(pre, cnt, ms, ex, pr, suf);
    lemma_decode_extractor_encoded(p.extractor, pre + cnt + ms, pr + suf);
}

/// The producer record of an embedded item encoding decodes back to the
/// item's producer, ending exactly at the end of the item.
#[verifier::rlimit(100)]
#[verifier::spinoff_prover]
proof fn lemma_event_processor_producer_segment(p: EventProcessorView, pre: Seq<u8>, suf: Seq<u8>)
    requires
        wf_event_processor(p),
    ensures
        spec_decode_producer(
            pre + ep_enc(p) + suf,
            pre.len() as int + 4 + ep_ms(p).len() + ep_ex(p).len(),
        ) == Ok::<(TaggedRecordView, int), EventProcessorError>(
            (p.producer, pre.len() + 4 + ep_ms(p).len() + ep_ex(p).len() + ep_pr(p).len() as int),
        ),
        ep_enc(p).len() == 4 + ep_ms(p).len() + ep_ex(p).len() + ep_pr(p).len(),
{
    let cnt = ep_cnt(p);
    let ms = ep_ms(p);
    let ex = ep_ex(p);
    let pr = ep_pr(p);
    lemma_decode_producer_encoded(p.producer, pre + cnt + ms + ex, suf);
    assert(pre + ep_enc(p) + suf =~= (pre + cnt + ms + ex) + pr + suf);
    assert(pr.len() == 2 + p.producer.payload.len());
}

/// A well-formed event processor encodes, and its encoding decodes back to
/// the processor, wherever it stands in a buffer.
#[verifier::rlimit(100)]
#[verifier::spinoff_prover]
proof fn lemma_decode_event_processor_encoded(p: EventProcessorView, pre: Seq<u8>, suf: Seq<u8>)
    requires
        wf_event_processor(p),
    ensures
        spec_try_encode_event_processor(p) matches Ok(enc) && spec_decode_event_processor(
            pre + enc + suf,
            pre.len() as int,
        ) == Ok::<(EventProcessorView, int), EventProcessorError>(
            (p, pre.len() as int + enc.len()),
        ),
{
    lemma_event_processor_head_segments(p, pre, suf);
    lemma_event_processor_extractor_segment(p, pre, suf);
    lemma_event_processor_producer_segment(p, pre, suf);
    lemma_decode_extractor_encoded(p.extractor, pre, Seq::empty());
    lemma_decode_producer_encoded(p.producer, pre, Seq::empty());
    assert(spec_try_encode_event_processor(p) == Ok::<Seq<u8>, EventProcessorError>(ep_enc(p)));
}

/// A sequence of well-formed event processors encodes, and its encoding
/// decodes back to the sequence, wherever it stands in a buffer.
#[verifier::rlimit(100)]
#[verifier::spinoff_prover]
proof fn lemma_decode_event_processors_encoded(
    s: Seq<EventProcessorView>,
    pre: Seq<u8>,
    suf: Seq<u8>,
)
    requires
        forall|i: int| 0 <= i < s.len() ==> wf_event_processor(s[i]),
    ensures
        spec_try_encode_event_processors(s) matches Ok(enc) && spec_decode_event_processors(
            pre + enc + suf,
            pre.len() as int,
            s.len(),
        ) == Ok::<(Seq<EventProcessorView>, int), EventProcessorError>(
            (s, pre.len() as int + enc.len()),
        ),
    decreases s.len(),
{
    if s.len() == 0 {
        let enc = spec_try_encode_event_processors(s)->Ok_0;
        assert(enc =~= Seq::<u8>::empty());
        assert(s =~= Seq::<EventProcessorView>::empty());
    } else {
        let p0 = s[0];
        let rest = s.drop_first();
        assert(forall|i: int| 0 <= i < rest.len() ==> rest[i] == s[i + 1]);
        let t = spec_try_encode_event_processors(rest)->Ok_0;
        lemma_decode_event_processor_encoded(p0, pre, t + suf);
        let h = spec_try_encode_event_processor(p0)->Ok_0;
        lemma_decode_event_processors_encoded(rest, pre + h, suf);
        let enc = h + t;
        let b = pre + enc + suf;
        let off = pre.len() as int;
        lemma_try_encode_event_processors_step(s);
        lemma_assoc_split(pre, h, t, suf);
        lemma_decode_event_processors_step(
            b,
            off,
            s.len(),
            p0,
            off + h.len(),
            rest,
            off + enc.len(),
        );
        assert(seq![p0] + rest =~= s);
    }
}

/// Unfolding step of the item-sequence encoder: with the head and the tail
/// encoded, the whole sequence encodes to their concatenation.
proof fn lemma_try_encode_event_processors_step(s: Seq<EventProcessorView>)
    requires
        s.len() > 0,
        spec_try_encode_event_processor(s[0]) is Ok,
        spec_try_encode_event_processors(s.drop_first()) is Ok,
    ensures
        spec_try_encode_event_processors(s) == Ok::<Seq<u8>, EventProcessorError>(
            spec_try_encode_event_processor(s[0])->Ok_0 + spec_try_encode_event_processors(
                s.drop_first(),
            )->Ok_0,
        ),
{
}

/// Unfolding step of the item-sequence decoder: with the head decoding at
/// `off` and the remaining items decoding after it, the whole sequence
/// decodes to the head followed by the rest.
proof fn lemma_decode_event_processors_step(
    b: Seq<u8>,
    off: int,
    n: nat,
    p0: EventProcessorView,
    e1: int,
    s1: Seq<EventProcessorView>,
    e2: int,
)
    requires
        n > 0,
        spec_decode_event_processor(b, off) == Ok::<(EventProcessorView, int), EventProcessorError>(
            (p0, e1),
        ),
        spec_decode_event_processors(b, e1, (n - 1) as nat) == Ok::<
            (Seq<EventProcessorView>, int),
            EventProcessorError,
        >((s1, e2)),
    ensures
        spec_decode_event_processors(b, off, n) == Ok::<
            (Seq<EventProcessorView>, int),
            EventProcessorError,
        >((seq![p0] + s1, e2)),
{
}

/// Law: a rule list built only from registered kinds, with payloads of the
/// registered sizes and counts that fit the wire format, encodes
/// successfully, and decoding the encoding reproduces the list exactly —
/// same order, same codes, same payload bytes.
#[verifier::rlimit(100)]
#[verifier::spinoff_prover]
pub proof fn lemma_rule_list_round_trip(l: Seq<EventProcessorView>)
    requires
        wf_rule_list(l),
    ensures
        spec_try_encode_rule_list(l) matches Ok(enc) && spec_decode_rule_list(enc)
            == Ok::<Seq<EventProcessorView>, EventProcessorError>(l),
{
    lemma_rule_list_body_encoded(l);
    let enc = spec_u32_be(l.len() as u32) + spec_try_encode_event_processors(l)->Ok_0;
    lemma_decode_rule_list_from_parts(enc, l);
}

/// The item-sequence encoding of a well-formed rule list succeeds, the full
/// payload carries the item count at its head, and the items decode back
/// from offset 4 onward.
#[verifier::rlimit(100)]
#[verifier::spinoff_prover]
proof fn lemma_rule_list_body_encoded(l: Seq<EventProcessorView>)
    requires
        wf_rule_list(l),
    ensures
        spec_try_encode_event_processors(l) is Ok,
        spec_try_encode_rule_list(l) == Ok::<Seq<u8>, EventProcessorError>(
            spec_u32_be(l.len() as u32) + spec_try_encode_event_processors(l)->Ok_0,
        ),
        spec_u32_at(spec_u32_be(l.len() as u32) + spec_try_encode_event_processors(l)->Ok_0, 0)
            == l.len() as u32,
        spec_decode_event_processors(
            spec_u32_be(l.len() as u32) + spec_try_encode_event_processors(l)->Ok_0,
            4,
            l.len(),
        ) == Ok::<(Seq<EventProcessorView>, int), EventProcessorError>(
            (l, 4 + spec_try_encode_event_processors(l)->Ok_0.len() as int),
        ),
{
    let n = l.len() as u32;
    let cnt = spec_u32_be(n);
    lemma_decode_event_processors_encoded(l, cnt, Seq::empty());
    let body = spec_try_encode_event_processors(l)->Ok_0;
    lemma_empty_ends(cnt, body);
    lemma_u32_be_at(n, Seq::empty(), body);
}

/// Unfolding step of the rule-list decoder: a buffer that carries the item
/// count at its head and decodes to `l` from offset 4 onward decodes, as a
/// whole payload, to `l`.
proof fn lemma_decode_rule_list_from_parts(enc: Seq<u8>, l: Seq<EventProcessorView>)
    requires
        enc.len() >= 4,
        l.len() <= u32::MAX,
        spec_u32_at(enc, 0) == l.len() as u32,
        spec_decode_event_processors(enc, 4, l.len()) matches Ok((s, end)) && s == l,
    ensures
        spec_decode_rule_list(enc) == Ok::<Seq<EventProcessorView>, EventProcessorError>(l),
{
}

/// A decoded extractor record ends after its code and within the buffer.
proof fn lemma_decode_extractor_bounds(b: Seq<u8>, off: int)
    requires
        0 <= off,
    ensures
        spec_decode_extractor(b, off) matches Ok((t, end)) ==> off + 2 <= end <= b.len(),
{
}

/// A decoded filter record ends after its code and within the buffer.
proof fn lemma_decode_filter_bounds(b: Seq<u8>, off: int)
    requires
        0 <= off,
    ensures
        spec_decode_filter(b, off) matches Ok((t, end)) ==> off + 2 <= end <= b.len(),
{
}

/// A decoded producer record ends after its code and within the buffer.
proof fn lemma_decode_producer_bounds(b: Seq<u8>, off: int)
    requires
        0 <= off,
    ensures
        spec_decode_producer(b, off) matches Ok((t, end)) ==> off + 2 <= end <= b.len(),
{
}

/// A decoded matcher ends after its two records and within the buffer.
proof fn lemma_decode_matcher_bounds(b: Seq<u8>, off: int)
    requires
        0 <= off,
    ensures
        spec_decode_matcher(b, off) matches Ok((v, end)) ==> off + 4 <= end <= b.len(),
{
    if spec_decode_matcher(b, off) is Ok {
        let (ex, e1) = spec_decode_extractor(b, off)->Ok_0;
        lemma_decode_extractor_bounds(b, off);
        lemma_decode_filter_bounds(b, e1);
    }
}

/// A decoded matcher sequence ends at or after its start and within the
/// buffer.
proof fn lemma_decode_matchers_bounds(b: Seq<u8>, off: int, n: nat)
    requires
        0 <= off <= b.len(),
    ensures
        spec_decode_matchers(b, off, n) matches Ok((s, end)) ==> off <= end <= b.len(),
    decreases n,
{
    if n != 0 && spec_decode_matchers(b, off, n) is Ok {
        let (m0, o2) = spec_decode_matcher(b, off)->Ok_0;
        lemma_decode_matcher_bounds(b, off);
        lemma_decode_matchers_bounds(b, o2, (n - 1) as nat);
    }
}

/// A decoded item ends after its count and three record groups and within
/// the buffer.
proof fn lemma_decode_event_processor_bounds(b: Seq<u8>, off: int)
    requires
        0 <= off,
    ensures
        spec_decode_event_processor(b, off) matches Ok((v, end)) ==> off + 8 <= end <= b.len(),
{
    if spec_decode_event_processor(b, off) is Ok {
        let cnt = spec_u32_at(b, off) as nat;
        let (ms, o2) = spec_decode_matchers(b, off + 4, cnt)->Ok_0;
        lemma_decode_matchers_bounds(b, off + 4, cnt);
        let (ex, o3) = spec_decode_extractor(b, o2)->Ok_0;
        lemma_decode_extractor_bounds(b, o2);
        lemma_decode_producer_bounds(b, o3);
    }
}

/// A decoded item sequence ends at or after its start and within the buffer.
proof fn lemma_decode_event_processors_bounds(b: Seq<u8>, off: int, n: nat)
    requires
        0 <= off <= b.len(),
    ensures
        spec_decode_event_processors(b, off, n) matches Ok((s, end)) ==> off <= end <= b.len(),
    decreases n,
{
    if n != 0 && spec_decode_event_processors(b, off, n) is Ok {
        let (p0, o2) = spec_decode_event_processor(b, off)->Ok_0;
        lemma_decode_event_processor_bounds(b, off);
        lemma_decode_event_processors_bounds(b, o2, (n - 1) as nat);
    }
}

/// Truncating a buffer below the end of a decodable extractor record turns
/// the decode into `WrongSize`; truncating at or past that end leaves it
/// unchanged.
proof fn lemma_decode_extractor_truncated(b: Seq<u8>, off: int, m: int)
    requires
        0 <= off <= m <= b.len(),
        spec_decode_extractor(b, off) is Ok,
    ensures
        spec_decode_extractor(b, off) matches Ok((t, end)) ==> (if m < end {
            spec_decode_extractor(b.subrange(0, m), off,) == Err::<(TaggedRecordView, int), EventProcessorError>(EventProcessorError::WrongSize)
        } else {
            spec_decode_extractor(b.subrange(0, m), off,) == Ok::<(TaggedRecordView, int), EventProcessorError>((t, end))
        }),
{
    let t1 = b.subrange(0, m);
    let code = spec_u16_at(b, off);
    if off + 2 <= m {
        assert(t1[off] == b[off] && t1[off + 1] == b[off + 1]);
        assert(spec_u16_at(t1, off) == code);
        let n = spec_extractor_payload_size(code)->Some_0;
        if off + 2 + n <= m {
            assert(t1.subrange(off + 2, off + 2 + n) =~= b.subrange(off + 2, off + 2 + n));
        }
    }
}

/// Truncating a buffer below the end of a decodable filter record turns the
/// decode into `WrongSize`; truncating at or past that end leaves it
/// unchanged.
proof fn lemma_decode_filter_truncated(b: Seq<u8>, off: int, m: int)
    requires
        0 <= off <= m <= b.len(),
        spec_decode_filter(b, off) is Ok,
    ensures
        spec_decode_filter(b, off) matches Ok((t, end)) ==> (if m < end {
            spec_decode_filter(b.subrange(0, m), off,) == Err::<(TaggedRecordView, int), EventProcessorError>(EventProcessorError::WrongSize)
        } else {
            spec_decode_filter(b.subrange(0, m), off,) == Ok::<(TaggedRecordView, int), EventProcessorError>((t, end))
        }),
{
    let t1 = b.subrange(0, m);
    let code = spec_u16_at(b, off);
    if off + 2 <= m {
        assert(t1[off] == b[off] && t1[off + 1] == b[off + 1]);
        assert(spec_u16_at(t1, off) == code);
        let n = spec_filter_payload_size(code)->Some_0;
        if off + 2 + n <= m {
            assert(t1.subrange(off + 2, off + 2 + n) =~= b.subrange(off + 2, off + 2 + n));
        }
    }
}

/// Truncating a buffer below the end of a decodable producer record turns
/// the decode into `WrongSize`; truncating at or past that end leaves it
/// unchanged.
proof fn lemma_decode_producer_truncated(b: Seq<u8>, off: int, m: int)
    requires
        0 <= off <= m <= b.len(),
        spec_decode_producer(b, off) is Ok,
    ensures
        spec_decode_producer(b, off) matches Ok((t, end)) ==> (if m < end {
            spec_decode_producer(b.subrange(0, m), off,) == Err::<(TaggedRecordView, int), EventProcessorError>(EventProcessorError::WrongSize)
        } else {
            spec_decode_producer(b.subrange(0, m), off,) == Ok::<(TaggedRecordView, int), EventProcessorError>((t, end))
        }),
{
    let t1 = b.subrange(0, m);
    let code = spec_u16_at(b, off);
    if off + 2 <= m {
        assert(t1[off] == b[off] && t1[off + 1] == b[off + 1]);
        assert(spec_u16_at(t1, off) == code);
        let n = spec_producer_payload_size(code)->Some_0;
        if off + 2 + n <= m {
            assert(t1.subrange(off + 2, off + 2 + n) =~= b.subrange(off + 2, off + 2 + n));
        }
    }
}

/// Truncating a buffer below the end of a decodable matcher turns the decode
/// into `WrongSize`; truncating at or past that end leaves it unchanged.
proof fn lemma_decode_matcher_truncated(b: Seq<u8>, off: int, m: int)
    requires
        0 <= off <= m <= b.len(),
        spec_decode_matcher(b, off) is Ok,
    ensures
        spec_decode_matcher(b, off) matches Ok((v, end)) ==> (if m < end {
            spec_decode_matcher(b.subrange(0, m), off,) == Err::<(MatcherView, int), EventProcessorError>(EventProcessorError::WrongSize)
        } else {
            spec_decode_matcher(b.subrange(0, m), off,) == Ok::<(MatcherView, int), EventProcessorError>((v, end))
        }),
{
    lemma_decode_extractor_bounds(b, off);
    lemma_decode_extractor_truncated(b, off, m);
    let (ex, e1) = spec_decode_extractor(b, off)->Ok_0;
    if m >= e1 {
        lemma_decode_filter_bounds(b, e1);
        lemma_decode_filter_truncated(b, e1, m);
    }
}

/// Truncating a buffer below the end of a decodable matcher sequence turns
/// the decode into `WrongSize`; truncating at or past that end leaves it
/// unchanged.
proof fn lemma_decode_matchers_truncated(b: Seq<u8>, off: int, n: nat, m: int)
    requires
        0 <= off <= m <= b.len(),
        spec_decode_matchers(b, off, n) is Ok,
    ensures
        spec_decode_matchers(b, off, n) matches Ok((s, end)) ==> (if m < end {
            spec_decode_matchers(b.subrange(0, m), off, n) == Err::<(Seq<MatcherView>, int), EventProcessorError,>(EventProcessorError::WrongSize)
        } else {
            spec_decode_matchers(b.subrange(0, m), off, n) == Ok::<(Seq<MatcherView>, int), EventProcessorError,>((s, end))
        }),
    decreases n,
{
    if n != 0 {
        lemma_decode_matcher_bounds(b, off);
        lemma_decode_matcher_truncated(b, off, m);
        let (m0, o2) = spec_decode_matcher(b, off)->Ok_0;
        lemma_decode_matchers_bounds(b, o2, (n - 1) as nat);
        if m >= o2 {
            lemma_decode_matchers_truncated(b, o2, (n - 1) as nat, m);
        }
    }
}

/// Truncating a buffer below the end of a decodable item turns the decode
/// into `WrongSize`; truncating at or past that end leaves it unchanged.
proof fn lemma_decode_event_processor_truncated(b: Seq<u8>, off: int, m: int)
    requires
        0 <= off <= m <= b.len(),
        spec_decode_event_processor(b, off) is Ok,
    ensures
        spec_decode_event_processor(b, off) matches Ok((v, end)) ==> (if m < end {
            spec_decode_event_processor(b.subrange(0, m), off) == Err::<(EventProcessorView, int), EventProcessorError,>(EventProcessorError::WrongSize)
        } else {
            spec_decode_event_processor(b.subrange(0, m), off) == Ok::<(EventProcessorView, int), EventProcessorError,>((v, end))
        }),
{
    let t1 = b.subrange(0, m);
    let cnt = spec_u32_at(b, off) as nat;
    lemma_decode_matchers_bounds(b, off + 4, cnt);
    let (ms, o2) = spec_decode_matchers(b, off + 4, cnt)->Ok_0;
    lemma_decode_extractor_bounds(b, o2);
    let (ex, o3) = spec_decode_extractor(b, o2)->Ok_0;
    lemma_decode_producer_bounds(b, o3);
    if off + 4 <= m {
        assert(t1[off] == b[off] && t1[off + 1] == b[off + 1] && t1[off + 2] == b[off + 2] && t1[off
            + 3] == b[off + 3]);
        assert(spec_u32_at(t1, off) == spec_u32_at(b, off));
        lemma_decode_matchers_truncated(b, off + 4, cnt, m);
        if m >= o2 {
            lemma_decode_extractor_truncated(b, o2, m);
            if m >= o3 {
                lemma_decode_producer_truncated(b, o3, m);
            }
        }
    }
}

/// Truncating a buffer below the end of a decodable item sequence turns the
/// decode into `WrongSize`; truncating at or past that end leaves it
/// unchanged.
proof fn lemma_decode_event_processors_truncated(b: Seq<u8>, off: int, n: nat, m: int)
    requires
        0 <= off <= m <= b.len(),
        spec_decode_event_processors(b, off, n) is Ok,
    ensures
        spec_decode_event_processors(b, off, n) matches Ok((s, end)) ==> (if m < end {
            spec_decode_event_processors(b.subrange(0, m), off, n) == Err::<(Seq<EventProcessorView>, int), EventProcessorError,>(EventProcessorError::WrongSize)
        } else {
            spec_decode_event_processors(b.subrange(0, m), off, n) == Ok::<(Seq<EventProcessorView>, int), EventProcessorError,>((s, end))
        }),
    decreases n,
{
    if n != 0 {
        lemma_decode_event_processor_bounds(b, off);
        lemma_decode_event_processor_truncated(b, off, m);
        let (p0, o2) = spec_decode_event_processor(b, off)->Ok_0;
        lemma_decode_event_processors_bounds(b, o2, (n - 1) as nat);
        if m >= o2 {
            lemma_decode_event_processors_truncated(b, o2, (n - 1) as nat, m);
        }
    }
}

/// Law: decoding any strict prefix of a valid encoded rule list fails with
/// `WrongSize` — the decoder notices the shortfall before reading past the
/// end, whatever the truncation point.
#[verifier::rlimit(100)]
#[verifier::spinoff_prover]
pub proof fn lemma_truncated_rule_list_rejected(l: Seq<EventProcessorView>, b: Seq<u8>, m: int)
    requires
        wf_rule_list(l),
        spec_try_encode_rule_list(l) == Ok::<Seq<u8>, EventProcessorError>(b),
        0 <= m < b.len(),
    ensures
        spec_decode_rule_list(b.subrange(0, m)) == Err::<
            Seq<EventProcessorView>,
            EventProcessorError,
        >(EventProcessorError::WrongSize),
{
    let n = l.len() as u32;
    let cnt = spec_u32_be(n);
    let body = spec_try_encode_event_processors(l)->Ok_0;
    lemma_decode_event_processors_encoded(l, cnt, Seq::empty());
    lemma_empty_ends(cnt, body);
    lemma_u32_be_at(n, Seq::empty(), body);
    let t1 = b.subrange(0, m);
    if 4 <= m {
        assert(t1[0] == b[0] && t1[1] == b[1] && t1[2] == b[2] && t1[3] == b[3]);
        assert(spec_u32_at(t1, 0) == n);
        lemma_decode_event_processors_truncated(b, 4, l.len(), m);
    }
}

/// Law: a tagged record whose code lies outside its registry is rejected
/// with the error of that registry — `UnknownExtractor`, `UnknownFilter` or
/// `UnknownProducer` — and decoding does not advance past it.
pub proof fn lemma_unknown_tag_rejected(b: Seq<u8>, off: int)
    requires
        0 <= off,
        off + 2 <= b.len(),
    ensures
        spec_extractor_payload_size(spec_u16_at(b, off)) is None ==> spec_decode_extractor(b, off)
            == Err::<(TaggedRecordView, int), EventProcessorError>(
            EventProcessorError::UnknownExtractor,
        ),
        spec_filter_payload_size(spec_u16_at(b, off)) is None ==> spec_decode_filter(b, off)
            == Err::<(TaggedRecordView, int), EventProcessorError>(
            EventProcessorError::UnknownFilter,
        ),
        spec_producer_payload_size(spec_u16_at(b, off)) is None ==> spec_decode_producer(b, off)
            == Err::<(TaggedRecordView, int), EventProcessorError>(
            EventProcessorError::UnknownProducer,
        ),
{
}

} // verus!
