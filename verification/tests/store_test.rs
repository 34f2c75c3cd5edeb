use ross_eeprom::event_processor::EventProcessor;
use ross_eeprom::event_processor::EventProcessorReader;
use ross_eeprom::event_processor::Extractor;
use ross_eeprom::event_processor::Filter;
use ross_eeprom::event_processor::Matcher;
use ross_eeprom::event_processor::Producer;
use ross_eeprom::rules::FLIP_FLOP_FILTER_CODE;
use ross_eeprom::rules::NONE_EXTRACTOR_CODE;
use ross_eeprom::rules::NONE_PRODUCER_CODE;
use ross_eeprom::store::frame_rule_list;
use ross_eeprom::wire::read_u32_be;
use ross_eeprom::wire::write_u32_be;

#[test]
fn frame_empty_rule_list_test() {
    let frame = frame_rule_list(&vec![]).unwrap();

    // a 4-byte length prefix (the payload is 4 bytes long), then the
    // payload: an item count of zero
    assert_eq!(frame, vec![0x00, 0x00, 0x00, 0x04, 0x00, 0x00, 0x00, 0x00]);
}

#[test]
fn frame_and_read_back_test() {
    let event_processors = vec![EventProcessor {
        matchers: vec![Matcher {
            extractor: Extractor { code: NONE_EXTRACTOR_CODE, payload: vec![] },
            filter: Filter { code: FLIP_FLOP_FILTER_CODE, payload: vec![0x01] },
        }],
        extractor: Extractor { code: NONE_EXTRACTOR_CODE, payload: vec![] },
        producer: Producer { code: NONE_PRODUCER_CODE, payload: vec![] },
    }];

    let frame = frame_rule_list(&event_processors).unwrap();

    // the length prefix names the payload length exactly
    let payload_len = read_u32_be(&frame, 0) as usize;
    assert_eq!(payload_len, frame.len() - 4);

    // the payload after the prefix decodes back to the list
    let payload = frame[4..].to_vec();
    let read_back = EventProcessorReader::read_from_vec(&payload).unwrap();
    assert_eq!(read_back, event_processors);
}

#[test]
fn u32_big_endian_round_trip_test() {
    let mut data = vec![];
    write_u32_be(&mut data, 0x01020304);

    assert_eq!(data, vec![0x01, 0x02, 0x03, 0x04]);
    assert_eq!(read_u32_be(&data, 0), 0x01020304);
}
