//! Framing of the persisted rule list.
//!
//! On the storage medium the rule-list payload lives at the address recorded
//! in the device descriptor, prefixed by a 4-byte big-endian length field
//! that tells the reader how many payload bytes to fetch.  This module
//! builds that frame; the raw reads and writes around it belong to the
//! transport layer outside this crate.

use vstd::prelude::*;

use crate::event_processor::EventProcessor;
use crate::event_processor::EventProcessorError;
use crate::event_processor::EventProcessorWriter;
use crate::laws::lemma_rule_list_round_trip;
use crate::rules::EventProcessorView;
use crate::rules::wf_rule_list;
use crate::wire::spec_decode_rule_list;
use crate::wire::spec_try_encode_rule_list;
use crate::wire::spec_u32_at;
use crate::wire::spec_u32_be;
use crate::wire::write_u32_be;

verus! {

/// The framed rule list: the payload's byte length as a big-endian 32-bit
/// field, then the payload itself.  Fails like the payload encoder, and
/// with `WrongSize` where the payload is too long for the length field.
pub open spec fn spec_frame_rule_list(l: Seq<EventProcessorView>) -> Result<
    Seq<u8>,
    EventProcessorError,
> {
    match spec_try_encode_rule_list(l) {
        Err(e) => Err(e),
        Ok(p) => if p.len() > u32::MAX {
            Err(EventProcessorError::WrongSize)
        } else {
            Ok(spec_u32_be(p.len() as u32) + p)
        },
    }
}

/// Encodes `event_processors` and prefixes the 4-byte big-endian length
/// field, yielding exactly the bytes to persist at the rule list's base
/// address.
pub fn frame_rule_list(event_processors: &Vec<EventProcessor>) -> (r: Result<
    Vec<u8>,
    EventProcessorError,
>)
    ensures
        r matches Ok(frame) ==> spec_frame_rule_list(event_processors.deep_view()) == Ok::<
            Seq<u8>,
            EventProcessorError,
        >(frame@),
        r matches Err(err) ==> spec_frame_rule_list(event_processors.deep_view()) == Err::<
            Seq<u8>,
            EventProcessorError,
        >(err),
{
    let mut payload: Vec<u8> = Vec::new();
    if let Err(e) = EventProcessorWriter::write_to_vec(&mut payload, event_processors) {
        return Err(e);
    }
    proof {
        assert(payload@ =~= spec_try_encode_rule_list(event_processors.deep_view())->Ok_0);
    }
    if payload.len() > u32::MAX as usize {
        return Err(EventProcessorError::WrongSize);
    }
    let len = payload.len() as u32;
    let mut frame: Vec<u8> = Vec::new();
    write_u32_be(&mut frame, len);
    frame.append(&mut payload);
    proof {
        assert(frame@ =~= spec_u32_be(len) + spec_try_encode_rule_list(
            event_processors.deep_view(),
        )->Ok_0);
    }
    Ok(frame)
}

/// The shape of a length-prefixed payload: the prefix reads back as the
/// payload's length, and the bytes after it are the payload.
proof fn lemma_length_prefixed(p: Seq<u8>)
    requires
        p.len() <= u32::MAX,
    ensures
        ({
            let f = spec_u32_be(p.len() as u32) + p;
            f.len() == 4 + p.len() && spec_u32_at(f, 0) == p.len() as u32 && f.subrange(
                4,
                f.len() as int,
            ) == p
        }),
{
    let n = p.len() as u32;
    let f = spec_u32_be(n) + p;
    assert(f[0] == (n / 0x1000000) as u8);
    assert(f[1] == ((n / 0x10000) % 0x100) as u8);
    assert(f[2] == ((n / 0x100) % 0x100) as u8);
    assert(f[3] == (n % 0x100) as u8);
    assert(f.subrange(4, f.len() as int) =~= p);
}

/// Law: the frame of a well-formed rule list whose payload fits the length
/// field carries that payload's byte length in its 4-byte prefix, and the
/// bytes after the prefix decode back to the list — reading a frame the way
/// the store does reproduces what was written.
#[verifier::rlimit(100)]
#[verifier::spinoff_prover]
pub proof fn lemma_frame_round_trip(l: Seq<EventProcessorView>)
    requires
        wf_rule_list(l),
        spec_try_encode_rule_list(l) matches Ok(p) && p.len() <= u32::MAX,
    ensures
        spec_frame_rule_list(l) matches Ok(f) && f.len() >= 4 && spec_u32_at(f, 0) as int == f.len()
            - 4 && spec_decode_rule_list(f.subrange(4, f.len() as int)) == Ok::<
            Seq<EventProcessorView>,
            EventProcessorError,
        >(l),
{
    lemma_rule_list_round_trip(l);
    let p = spec_try_encode_rule_list(l)->Ok_0;
    lemma_length_prefixed(p);
}

} // verus!
