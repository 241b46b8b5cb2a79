use rebase_codec::schema::{event_params, ParamKind};
use rebase_codec::CodecError;
use rebase_codec::EthRebasedEvent;

fn sample() -> EthRebasedEvent {
    EthRebasedEvent {
        rebaser_address: [0u8; 20],
        epoch: 100,
        exchange_rate: 1_250_000_000_000_000_000,
        cpi: 1_100_000_000_000_000_000,
        requested_supply_adjustment: 1_000_000,
        timestamp_sec: 123_456_789,
    }
}

#[test]
fn test_event_data() {
    let event_data = sample();
    let data = event_data.to_log_entry_data().unwrap();
    let result = EthRebasedEvent::from_log_entry_data(&data).unwrap();
    assert_eq!(result, event_data);
}

#[test]
fn epoch_boundary_encodes_and_decodes() {
    let mut event = sample();
    event.epoch = 255;
    let data = event.to_log_entry_data().unwrap();
    let result = EthRebasedEvent::from_log_entry_data(&data).unwrap();
    assert_eq!(result, event);
}

#[test]
fn epoch_overflow_fails_encode() {
    let mut event = sample();
    event.epoch = 256;
    assert_eq!(event.to_log_entry_data(), Err(CodecError::EncodingOverflow));
}

#[test]
fn empty_buffer_rejected() {
    assert_eq!(
        EthRebasedEvent::from_log_entry_data(&[]),
        Err(CodecError::MalformedLog)
    );
}

#[test]
fn truncated_buffer_rejected() {
    let mut data = sample().to_log_entry_data().unwrap();
    data.pop();
    assert_eq!(
        EthRebasedEvent::from_log_entry_data(&data),
        Err(CodecError::MalformedLog)
    );
}

#[test]
fn corrupted_framing_rejected() {
    let mut data = sample().to_log_entry_data().unwrap();
    data[0] = 0x00;
    assert_eq!(
        EthRebasedEvent::from_log_entry_data(&data),
        Err(CodecError::MalformedLog)
    );
}

#[test]
fn oversized_value_word_rejected() {
    // A nonzero byte in the high half of a data word stands for a value
    // wider than 128 bits; decoding must not truncate it.
    let mut data = sample().to_log_entry_data().unwrap();
    data[93] = 0x01;
    assert_eq!(
        EthRebasedEvent::from_log_entry_data(&data),
        Err(CodecError::MalformedLog)
    );
}

#[test]
fn zeroed_signature_rejected() {
    let mut data = sample().to_log_entry_data().unwrap();
    for i in 26..58 {
        data[i] = 0;
    }
    assert_eq!(
        EthRebasedEvent::from_log_entry_data(&data),
        Err(CodecError::MalformedLog)
    );
}

#[test]
fn signature_is_hashed_not_copied() {
    // The signature topic is the digest of the signature string, never
    // the string itself.
    let mut data = sample().to_log_entry_data().unwrap();
    let preimage = "Rebased(uint256,uint256,uint256,int256,uint256)".as_bytes();
    data[26..58].copy_from_slice(&preimage[..32]);
    assert_eq!(
        EthRebasedEvent::from_log_entry_data(&data),
        Err(CodecError::MalformedLog)
    );
}

#[test]
fn permuted_data_words_swap_fields() {
    // Decoding trusts positional order: transposing the first two data
    // words moves their values to each other's field names.
    let event = sample();
    let data = event.to_log_entry_data().unwrap();
    let mut permuted = data.clone();
    for i in 0..32 {
        permuted[93 + i] = data[125 + i];
        permuted[125 + i] = data[93 + i];
    }
    let result = EthRebasedEvent::from_log_entry_data(&permuted).unwrap();
    assert_eq!(result.exchange_rate, event.cpi);
    assert_eq!(result.cpi, event.exchange_rate);
    assert_eq!(result.rebaser_address, event.rebaser_address);
    assert_eq!(result.epoch, event.epoch);
    assert_eq!(
        result.requested_supply_adjustment,
        event.requested_supply_adjustment
    );
    assert_eq!(result.timestamp_sec, event.timestamp_sec);
}

#[test]
fn encoded_layout_is_exact() {
    let data = sample().to_log_entry_data().unwrap();
    assert_eq!(data.len(), 221);
    // outer list, address, topics list, and data segment framing
    assert_eq!(data[0], 0xf8);
    assert_eq!(data[1], 0xdb);
    assert_eq!(data[2], 0x94);
    assert_eq!(data[23], 0xf8);
    assert_eq!(data[24], 0x42);
    assert_eq!(data[25], 0xa0);
    assert_eq!(data[58], 0xa0);
    assert_eq!(data[91], 0xb8);
    assert_eq!(data[92], 0x80);
    // the epoch topic is the single byte 100, left-padded with zeros
    for i in 59..90 {
        assert_eq!(data[i], 0);
    }
    assert_eq!(data[90], 100);
    // timestamp_sec = 123_456_789 = 0x075bcd15, big-endian in the last word
    assert_eq!(&data[217..221], &[0x07, 0x5b, 0xcd, 0x15]);
    for i in 189..217 {
        assert_eq!(data[i], 0);
    }
}

#[test]
fn max_values_roundtrip() {
    let event = EthRebasedEvent {
        rebaser_address: [0xab; 20],
        epoch: 255,
        exchange_rate: u128::MAX,
        cpi: u128::MAX - 1,
        requested_supply_adjustment: u128::MAX,
        timestamp_sec: 0,
    };
    let data = event.to_log_entry_data().unwrap();
    let result = EthRebasedEvent::from_log_entry_data(&data).unwrap();
    assert_eq!(result, event);
}

#[test]
fn address_roundtrip() {
    let mut addr = [0u8; 20];
    for (i, b) in addr.iter_mut().enumerate() {
        *b = i as u8 + 1;
    }
    let mut event = sample();
    event.rebaser_address = addr;
    let data = event.to_log_entry_data().unwrap();
    let result = EthRebasedEvent::from_log_entry_data(&data).unwrap();
    assert_eq!(result, event);
}

#[test]
fn render_concrete() {
    let rendered = sample().render();
    assert_eq!(
        rendered,
        "epoch: 100; exchange_rate: 1250000000000000000; cpi: 1100000000000000000; \
         requested_supply_adjustment: 1000000; timestamp_sec: 123456789"
    );
}

#[test]
fn schema_declares_five_params_epoch_indexed() {
    let params = event_params();
    assert_eq!(params.len(), 5);
    assert_eq!(
        params[0],
        ("epoch".to_string(), ParamKind::Uint256, true)
    );
    assert_eq!(
        params[1],
        ("exchange_rate".to_string(), ParamKind::Uint256, false)
    );
    assert_eq!(params[2], ("cpi".to_string(), ParamKind::Uint256, false));
    assert_eq!(
        params[3],
        (
            "requested_supply_adjustment".to_string(),
            ParamKind::Int256,
            false
        )
    );
    assert_eq!(
        params[4],
        ("timestamp_sec".to_string(), ParamKind::Uint256, false)
    );
}

#[test]
fn render_zero_fields() {
    let event = EthRebasedEvent {
        rebaser_address: [0u8; 20],
        epoch: 0,
        exchange_rate: 0,
        cpi: 0,
        requested_supply_adjustment: 0,
        timestamp_sec: 0,
    };
    assert_eq!(
        event.render(),
        "epoch: 0; exchange_rate: 0; cpi: 0; requested_supply_adjustment: 0; timestamp_sec: 0"
    );
}
