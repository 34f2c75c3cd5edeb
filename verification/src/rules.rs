//! Data model of the rule list.
//!
//! A rule list is an ordered sequence of event processors.  Each processor
//! owns an ordered sequence of matchers (an extractor paired with a filter),
//! one trailing extractor and one producer.  Extractors, filters and
//! producers form three closed registries: every kind has a stable 16-bit
//! code and a fixed payload size.  The codec treats each payload as an opaque
//! blob of exactly that size; only the external rule engine interprets its
//! fields.  Changing a registered kind's code or payload size is a breaking
//! format change.

use vstd::prelude::*;

verus! {

/// Errors of the rule-list codec.
#[derive(Debug, Clone, Copy, PartialEq, Eq, Structural)]
pub enum EventProcessorError {
    /// A buffer, payload or count does not have the required size.
    WrongSize,
    /// An extractor code outside the extractor registry.
    UnknownExtractor,
    /// A filter code outside the filter registry.
    UnknownFilter,
    /// A producer code outside the producer registry.
    UnknownProducer,
}

pub const NONE_EXTRACTOR_CODE: u16 = 0x0000;

pub const EVENT_CODE_EXTRACTOR_CODE: u16 = 0x0001;

pub const U8_INCREMENT_STATE_FILTER_CODE: u16 = 0x0000;

pub const U16_IS_EQUAL_FILTER_CODE: u16 = 0x0001;

pub const U32_IS_EQUAL_STATE_FILTER_CODE: u16 = 0x0002;

pub const U32_INCREMENT_STATE_FILTER_CODE: u16 = 0x0003;

pub const U32_SET_STATE_FILTER_CODE: u16 = 0x0004;

pub const FLIP_FLOP_FILTER_CODE: u16 = 0x0005;

pub const COUNT_FILTER_CODE: u16 = 0x0006;

pub const COUNT_STATE_FILTER_CODE: u16 = 0x0007;

pub const NONE_PRODUCER_CODE: u16 = 0x0000;

pub const BCM_CHANGE_BRIGHTNESS_PRODUCER_CODE: u16 = 0x0001;

pub const BCM_CHANGE_BRIGHTNESS_STATE_PRODUCER_CODE: u16 = 0x0002;

/// The fixed payload size of a registered extractor code, `None` outside the
/// registry.
pub open spec fn spec_extractor_payload_size(code: u16) -> Option<nat> {
    if code == NONE_EXTRACTOR_CODE {
        Some(0nat)
    } else if code == EVENT_CODE_EXTRACTOR_CODE {
        Some(0nat)
    } else {
        None
    }
}

/// The fixed payload size of a registered filter code, `None` outside the
/// registry.
pub open spec fn spec_filter_payload_size(code: u16) -> Option<nat> {
    if code == U8_INCREMENT_STATE_FILTER_CODE {
        Some(4nat)
    } else if code == U16_IS_EQUAL_FILTER_CODE {
        Some(2nat)
    } else if code == U32_IS_EQUAL_STATE_FILTER_CODE {
        Some(8nat)
    } else if code == U32_INCREMENT_STATE_FILTER_CODE {
        Some(4nat)
    } else if code == U32_SET_STATE_FILTER_CODE {
        Some(8nat)
    } else if code == FLIP_FLOP_FILTER_CODE {
        Some(1nat)
    } else if code == COUNT_FILTER_CODE {
        Some(8nat)
    } else if code == COUNT_STATE_FILTER_CODE {
        Some(8nat)
    } else {
        None
    }
}

/// The fixed payload size of a registered producer code, `None` outside the
/// registry.
pub open spec fn spec_producer_payload_size(code: u16) -> Option<nat> {
    if code == NONE_PRODUCER_CODE {
        Some(0nat)
    } else if code == BCM_CHANGE_BRIGHTNESS_PRODUCER_CODE {
        Some(4nat)
    } else if code == BCM_CHANGE_BRIGHTNESS_STATE_PRODUCER_CODE {
        Some(8nat)
    } else {
        None
    }
}

/// Extractor registry lookup.
pub fn extractor_payload_size(code: u16) -> (r: Option<usize>)
    ensures
        r is Some <==> spec_extractor_payload_size(code) is Some,
        r matches Some(n) ==> spec_extractor_payload_size(code) == Some(n as nat),
{
    if code == NONE_EXTRACTOR_CODE {
        Some(0)
    } else if code == EVENT_CODE_EXTRACTOR_CODE {
        Some(0)
    } else {
        None
    }
}

/// Filter registry lookup.
pub fn filter_payload_size(code: u16) -> (r: Option<usize>)
    ensures
        r is Some <==> spec_filter_payload_size(code) is Some,
        r matches Some(n) ==> spec_filter_payload_size(code) == Some(n as nat),
{
    if code == U8_INCREMENT_STATE_FILTER_CODE {
        Some(4)
    } else if code == U16_IS_EQUAL_FILTER_CODE {
        Some(2)
    } else if code == U32_IS_EQUAL_STATE_FILTER_CODE {
        Some(8)
    } else if code == U32_INCREMENT_STATE_FILTER_CODE {
        Some(4)
    } else if code == U32_SET_STATE_FILTER_CODE {
        Some(8)
    } else if code == FLIP_FLOP_FILTER_CODE {
        Some(1)
    } else if code == COUNT_FILTER_CODE {
        Some(8)
    } else if code == COUNT_STATE_FILTER_CODE {
        Some(8)
    } else {
        None
    }
}

/// Producer registry lookup.
pub fn producer_payload_size(code: u16) -> (r: Option<usize>)
    ensures
        r is Some <==> spec_producer_payload_size(code) is Some,
        r matches Some(n) ==> spec_producer_payload_size(code) == Some(n as nat),
{
    if code == NONE_PRODUCER_CODE {
        Some(0)
    } else if code == BCM_CHANGE_BRIGHTNESS_PRODUCER_CODE {
        Some(4)
    } else if code == BCM_CHANGE_BRIGHTNESS_STATE_PRODUCER_CODE {
        Some(8)
    } else {
        None
    }
}

/// An extractor: a registry code and its opaque fixed-size payload.
#[derive(Debug, PartialEq, Eq)]
pub struct Extractor {
    pub code: u16,
    pub payload: Vec<u8>,
}

/// A filter: a registry code and its opaque fixed-size payload.
#[derive(Debug, PartialEq, Eq)]
pub struct Filter {
    pub code: u16,
    pub payload: Vec<u8>,
}

/// A producer: a registry code and its opaque fixed-size payload.
#[derive(Debug, PartialEq, Eq)]
pub struct Producer {
    pub code: u16,
    pub payload: Vec<u8>,
}

/// An extractor paired with the filter applied to the extracted value.
#[derive(Debug, PartialEq, Eq)]
pub struct Matcher {
    pub extractor: Extractor,
    pub filter: Filter,
}

/// One rule: all matchers must pass, then `extractor` feeds `producer`.
#[derive(Debug, PartialEq, Eq)]
pub struct EventProcessor {
    pub matchers: Vec<Matcher>,
    pub extractor: Extractor,
    pub producer: Producer,
}

/// Mathematical image of one tagged record: its code and payload bytes.
pub struct TaggedRecordView {
    pub code: u16,
    pub payload: Seq<u8>,
}

/// Mathematical image of a matcher.
pub struct MatcherView {
    pub extractor: TaggedRecordView,
    pub filter: TaggedRecordView,
}

/// Mathematical image of an event processor.
pub struct EventProcessorView {
    pub matchers: Seq<MatcherView>,
    pub extractor: TaggedRecordView,
    pub producer: TaggedRecordView,
}

impl DeepView for Extractor {
    type V = TaggedRecordView;

    open spec fn deep_view(&self) -> TaggedRecordView {
        TaggedRecordView { code: self.code, payload: self.payload@ }
    }
}

impl DeepView for Filter {
    type V = TaggedRecordView;

    open spec fn deep_view(&self) -> TaggedRecordView {
        TaggedRecordView { code: self.code, payload: self.payload@ }
    }
}

impl DeepView for Producer {
    type V = TaggedRecordView;

    open spec fn deep_view(&self) -> TaggedRecordView {
        TaggedRecordView { code: self.code, payload: self.payload@ }
    }
}

impl DeepView for Matcher {
    type V = MatcherView;

    open spec fn deep_view(&self) -> MatcherView {
        MatcherView { extractor: self.extractor.deep_view(), filter: self.filter.deep_view() }
    }
}

impl DeepView for EventProcessor {
    type V = EventProcessorView;

    open spec fn deep_view(&self) -> EventProcessorView {
        EventProcessorView {
            matchers: self.matchers.deep_view(),
            extractor: self.extractor.deep_view(),
            producer: self.producer.deep_view(),
        }
    }
}

/// The extractor's code is registered and its payload has the registered
/// size.
pub open spec fn wf_extractor(e: TaggedRecordView) -> bool {
    spec_extractor_payload_size(e.code) == Some(e.payload.len())
}

/// The filter's code is registered and its payload has the registered size.
pub open spec fn wf_filter(f: TaggedRecordView) -> bool {
    spec_filter_payload_size(f.code) == Some(f.payload.len())
}

/// The producer's code is registered and its payload has the registered
/// size.
pub open spec fn wf_producer(p: TaggedRecordView) -> bool {
    spec_producer_payload_size(p.code) == Some(p.payload.len())
}

/// Both halves of the matcher are well formed.
pub open spec fn wf_matcher(m: MatcherView) -> bool {
    wf_extractor(m.extractor) && wf_filter(m.filter)
}

/// All components are well formed and the matcher count is representable in
/// the wire format's 32-bit count field.
pub open spec fn wf_event_processor(p: EventProcessorView) -> bool {
    &&& p.matchers.len() <= u32::MAX
    &&& forall|i: int| 0 <= i < p.matchers.len() ==> wf_matcher(p.matchers[i])
    &&& wf_extractor(p.extractor)
    &&& wf_producer(p.producer)
}

/// All items are well formed and the item count is representable in the wire
/// format's 32-bit count field.
pub open spec fn wf_rule_list(l: Seq<EventProcessorView>) -> bool {
    &&& l.len() <= u32::MAX
    &&& forall|i: int| 0 <= i < l.len() ==> wf_event_processor(l[i])
}

} // verus!
