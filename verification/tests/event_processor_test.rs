use ross_eeprom::event_processor::EventProcessor;
use ross_eeprom::event_processor::EventProcessorError;
use ross_eeprom::event_processor::EventProcessorReader;
use ross_eeprom::event_processor::EventProcessorWriter;
use ross_eeprom::event_processor::Extractor;
use ross_eeprom::event_processor::Filter;
use ross_eeprom::event_processor::Matcher;
use ross_eeprom::event_processor::Producer;
use ross_eeprom::rules::extractor_payload_size;
use ross_eeprom::rules::filter_payload_size;
use ross_eeprom::rules::producer_payload_size;
use ross_eeprom::rules::BCM_CHANGE_BRIGHTNESS_PRODUCER_CODE;
use ross_eeprom::rules::BCM_CHANGE_BRIGHTNESS_STATE_PRODUCER_CODE;
use ross_eeprom::rules::COUNT_FILTER_CODE;
use ross_eeprom::rules::COUNT_STATE_FILTER_CODE;
use ross_eeprom::rules::EVENT_CODE_EXTRACTOR_CODE;
use ross_eeprom::rules::FLIP_FLOP_FILTER_CODE;
use ross_eeprom::rules::NONE_EXTRACTOR_CODE;
use ross_eeprom::rules::NONE_PRODUCER_CODE;
use ross_eeprom::rules::U16_IS_EQUAL_FILTER_CODE;
use ross_eeprom::rules::U32_INCREMENT_STATE_FILTER_CODE;
use ross_eeprom::rules::U32_IS_EQUAL_STATE_FILTER_CODE;
use ross_eeprom::rules::U32_SET_STATE_FILTER_CODE;
use ross_eeprom::rules::U8_INCREMENT_STATE_FILTER_CODE;

fn none_extractor() -> Extractor {
    Extractor { code: NONE_EXTRACTOR_CODE, payload: vec![] }
}

fn flip_flop_filter(state: u8) -> Filter {
    Filter { code: FLIP_FLOP_FILTER_CODE, payload: vec![state] }
}

fn none_producer() -> Producer {
    Producer { code: NONE_PRODUCER_CODE, payload: vec![] }
}

#[test]
fn read_from_vec_event_processor_reader_wrong_size_test() {
    let data = vec![];

    let err = EventProcessorReader::read_from_vec(&data).unwrap_err();

    assert_eq!(EventProcessorError::WrongSize, err);
}

#[test]
fn read_from_vec_event_processor_reader_empty_test() {
    let data = vec![
        0x00, 0x00, 0x00, 0x00, // event processor count
    ];

    let event_processors = EventProcessorReader::read_from_vec(&data).unwrap();

    assert_eq!(event_processors.len(), 0);
}

#[test]
fn read_from_vec_event_processor_reader_test() {
    let data = vec![
        0x00, 0x00, 0x00, 0x01, // event processor count
        0x00, 0x00, 0x00, 0x01, // matcher count
        0x00, 0x00, // none extractor code
        0x00, 0x05, // flip flop filter code
        0x00, // flip flop filter state
        0x00, 0x00, // none extractor code
        0x00, 0x00, // none producer code
    ];

    let event_processors = EventProcessorReader::read_from_vec(&data).unwrap();

    assert_eq!(event_processors.len(), 1);
}

#[test]
fn write_to_vec_event_processor_writer_test() {
    let event_processors = vec![EventProcessor {
        matchers: vec![Matcher { extractor: none_extractor(), filter: flip_flop_filter(0x00) }],
        extractor: none_extractor(),
        producer: none_producer(),
    }];

    let mut data = vec![];

    EventProcessorWriter::write_to_vec(&mut data, &event_processors).unwrap();

    let expected_data = vec![
        0x00, 0x00, 0x00, 0x01, // event processor count
        0x00, 0x00, 0x00, 0x01, // matcher count
        0x00, 0x00, // none extractor code
        0x00, 0x05, // flip flop filter code
        0x00, // flip flop filter state
        0x00, 0x00, // none extractor code
        0x00, 0x00, // none producer code
    ];

    assert_eq!(data, expected_data);
}

#[test]
fn rule_list_round_trip_test() {
    let event_processors = vec![
        EventProcessor {
            matchers: vec![
                Matcher {
                    extractor: Extractor { code: EVENT_CODE_EXTRACTOR_CODE, payload: vec![] },
                    filter: Filter {
                        code: U16_IS_EQUAL_FILTER_CODE,
                        payload: vec![0x12, 0x34],
                    },
                },
                Matcher { extractor: none_extractor(), filter: flip_flop_filter(0x01) },
            ],
            extractor: none_extractor(),
            producer: Producer {
                code: BCM_CHANGE_BRIGHTNESS_PRODUCER_CODE,
                payload: vec![0xaa, 0xbb, 0xcc, 0xdd],
            },
        },
        EventProcessor {
            matchers: vec![],
            extractor: none_extractor(),
            producer: none_producer(),
        },
    ];

    let mut data = vec![];
    EventProcessorWriter::write_to_vec(&mut data, &event_processors).unwrap();

    let read_back = EventProcessorReader::read_from_vec(&data).unwrap();

    assert_eq!(read_back, event_processors);
}

#[test]
fn truncated_rule_list_rejected_test() {
    let event_processors = vec![EventProcessor {
        matchers: vec![Matcher { extractor: none_extractor(), filter: flip_flop_filter(0x00) }],
        extractor: none_extractor(),
        producer: none_producer(),
    }];

    let mut data = vec![];
    EventProcessorWriter::write_to_vec(&mut data, &event_processors).unwrap();

    for cut in 0..data.len() {
        let prefix = data[..cut].to_vec();
        let err = EventProcessorReader::read_from_vec(&prefix).unwrap_err();
        assert_eq!(EventProcessorError::WrongSize, err);
    }
}

#[test]
fn unknown_extractor_code_rejected_test() {
    let data = vec![
        0x00, 0x00, 0x00, 0x01, // event processor count
        0x00, 0x00, 0x00, 0x01, // matcher count
        0xff, 0xff, // extractor code outside the registry
    ];

    let err = EventProcessorReader::read_from_vec(&data).unwrap_err();

    assert_eq!(EventProcessorError::UnknownExtractor, err);
}

#[test]
fn unknown_filter_code_rejected_test() {
    let data = vec![
        0x00, 0x00, 0x00, 0x01, // event processor count
        0x00, 0x00, 0x00, 0x01, // matcher count
        0x00, 0x00, // none extractor code
        0xff, 0xff, // filter code outside the registry
    ];

    let err = EventProcessorReader::read_from_vec(&data).unwrap_err();

    assert_eq!(EventProcessorError::UnknownFilter, err);
}

#[test]
fn unknown_producer_code_rejected_test() {
    let data = vec![
        0x00, 0x00, 0x00, 0x01, // event processor count
        0x00, 0x00, 0x00, 0x00, // matcher count
        0x00, 0x00, // none extractor code
        0xff, 0xff, // producer code outside the registry
    ];

    let err = EventProcessorReader::read_from_vec(&data).unwrap_err();

    assert_eq!(EventProcessorError::UnknownProducer, err);
}

#[test]
fn write_unknown_extractor_rejected_test() {
    let event_processors = vec![EventProcessor {
        matchers: vec![],
        extractor: Extractor { code: 0x7777, payload: vec![] },
        producer: none_producer(),
    }];

    let mut data = vec![];
    let err = EventProcessorWriter::write_to_vec(&mut data, &event_processors).unwrap_err();

    assert_eq!(EventProcessorError::UnknownExtractor, err);
    assert!(data.is_empty());
}

#[test]
fn write_wrong_payload_size_rejected_test() {
    let event_processors = vec![EventProcessor {
        matchers: vec![Matcher {
            extractor: none_extractor(),
            // a flip flop filter payload must be exactly one byte
            filter: Filter { code: FLIP_FLOP_FILTER_CODE, payload: vec![0x00, 0x01] },
        }],
        extractor: none_extractor(),
        producer: none_producer(),
    }];

    let mut data = vec![];
    let err = EventProcessorWriter::write_to_vec(&mut data, &event_processors).unwrap_err();

    assert_eq!(EventProcessorError::WrongSize, err);
    assert!(data.is_empty());
}

#[test]
fn write_extractor_to_vec_test() {
    let extractor = Extractor { code: EVENT_CODE_EXTRACTOR_CODE, payload: vec![] };

    let mut data = vec![];
    EventProcessorWriter::write_extractor_to_vec(&mut data, &extractor).unwrap();

    assert_eq!(data, vec![0x00, 0x01]);
}

#[test]
fn all_registered_kinds_round_trip_test() {
    let extractor_codes = vec![NONE_EXTRACTOR_CODE, EVENT_CODE_EXTRACTOR_CODE];
    let filter_codes = vec![
        U8_INCREMENT_STATE_FILTER_CODE,
        U16_IS_EQUAL_FILTER_CODE,
        U32_IS_EQUAL_STATE_FILTER_CODE,
        U32_INCREMENT_STATE_FILTER_CODE,
        U32_SET_STATE_FILTER_CODE,
        FLIP_FLOP_FILTER_CODE,
        COUNT_FILTER_CODE,
        COUNT_STATE_FILTER_CODE,
    ];
    let producer_codes = vec![
        NONE_PRODUCER_CODE,
        BCM_CHANGE_BRIGHTNESS_PRODUCER_CODE,
        BCM_CHANGE_BRIGHTNESS_STATE_PRODUCER_CODE,
    ];

    // one matcher per filter kind, alternating extractor kinds, and one
    // item per producer kind
    let mut event_processors = vec![];
    for (p, producer_code) in producer_codes.into_iter().enumerate() {
        let mut matchers = vec![];
        for (f, filter_code) in filter_codes.iter().enumerate() {
            let extractor_code = extractor_codes[(p + f) % extractor_codes.len()];
            matchers.push(Matcher {
                extractor: Extractor {
                    code: extractor_code,
                    payload: vec![0xa0; extractor_payload_size(extractor_code).unwrap()],
                },
                filter: Filter {
                    code: *filter_code,
                    payload: vec![f as u8; filter_payload_size(*filter_code).unwrap()],
                },
            });
        }
        event_processors.push(EventProcessor {
            matchers,
            extractor: Extractor { code: NONE_EXTRACTOR_CODE, payload: vec![] },
            producer: Producer {
                code: producer_code,
                payload: vec![0x5a; producer_payload_size(producer_code).unwrap()],
            },
        });
    }

    let mut data = vec![];
    EventProcessorWriter::write_to_vec(&mut data, &event_processors).unwrap();

    let read_back = EventProcessorReader::read_from_vec(&data).unwrap();
    assert_eq!(read_back, event_processors);
}

#[test]
fn trailing_bytes_ignored_test() {
    let data = vec![
        0x00, 0x00, 0x00, 0x00, // event processor count
        0x55, 0x66, // stale bytes after the last item
    ];

    let event_processors = EventProcessorReader::read_from_vec(&data).unwrap();

    assert_eq!(event_processors.len(), 0);
}
