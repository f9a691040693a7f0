use neuro_bridge::{BridgeCommand, BridgeResponse, WireError};

fn gpu_info(name: &str, version: &str) -> BridgeResponse {
    BridgeResponse::GpuInfo { device_name: name.to_string(), driver_version: version.to_string() }
}

#[test]
fn command_encodings_are_four_byte_tags() {
    assert_eq!(BridgeCommand::Ping.encode(), vec![0, 0, 0, 0]);
    assert_eq!(BridgeCommand::GetGpuInfo.encode(), vec![1, 0, 0, 0]);
}

#[test]
fn every_command_round_trips() {
    for command in [BridgeCommand::Ping, BridgeCommand::GetGpuInfo] {
        assert_eq!(BridgeCommand::decode(&command.encode()), Ok(command));
    }
}

#[test]
fn response_encodings_are_exact() {
    assert_eq!(BridgeResponse::Pong.encode(), vec![0, 0, 0, 0]);
    assert_eq!(BridgeResponse::Ack.encode(), vec![3, 0, 0, 0]);
    assert_eq!(
        BridgeResponse::Error("hi".to_string()).encode(),
        vec![2, 0, 0, 0, 2, 0, 0, 0, 0, 0, 0, 0, b'h', b'i'],
    );
    assert_eq!(
        gpu_info("A", "1.2").encode(),
        vec![
            1, 0, 0, 0, 1, 0, 0, 0, 0, 0, 0, 0, b'A', 3, 0, 0, 0, 0, 0, 0, 0, b'1', b'.', b'2',
        ],
    );
}

#[test]
fn text_length_counts_utf8_bytes() {
    let bytes = BridgeResponse::Error("é✓".to_string()).encode();
    assert_eq!(bytes, vec![2, 0, 0, 0, 5, 0, 0, 0, 0, 0, 0, 0, 0xc3, 0xa9, 0xe2, 0x9c, 0x93]);
    assert_eq!(BridgeResponse::decode(&bytes), Ok(BridgeResponse::Error("é✓".to_string())));
}

#[test]
fn every_response_round_trips() {
    let responses = vec![
        BridgeResponse::Pong,
        gpu_info("Mock GPU", "1.2.3"),
        gpu_info("", ""),
        BridgeResponse::Error("no GPU driver".to_string()),
        BridgeResponse::Error(String::new()),
        BridgeResponse::Ack,
    ];
    for response in responses {
        assert_eq!(BridgeResponse::decode(&response.encode()), Ok(response));
    }
}

#[test]
fn long_text_round_trips() {
    let response = BridgeResponse::Error("x".repeat(70_000));
    let bytes = response.encode();
    assert_eq!(bytes.len(), 4 + 8 + 70_000);
    assert_eq!(&bytes[4..12], &[0x70, 0x11, 0x01, 0, 0, 0, 0, 0]);
    assert_eq!(BridgeResponse::decode(&bytes), Ok(response));
}

#[test]
fn encoding_agrees_with_bincode_on_the_same_fields() {
    assert_eq!(BridgeCommand::GetGpuInfo.encode(), bincode::serialize(&1u32).unwrap());
    assert_eq!(
        gpu_info("Mock GPU", "1.2.3").encode(),
        bincode::serialize(&(1u32, "Mock GPU", "1.2.3")).unwrap(),
    );
    assert_eq!(
        BridgeResponse::Error("no GPU driver".to_string()).encode(),
        bincode::serialize(&(2u32, "no GPU driver")).unwrap(),
    );
}

#[test]
fn decoding_reads_what_bincode_wrote() {
    let bytes = bincode::serialize(&(1u32, "Mock GPU", "1.2.3")).unwrap();
    assert_eq!(BridgeResponse::decode(&bytes), Ok(gpu_info("Mock GPU", "1.2.3")));
    let bytes = bincode::serialize(&0u32).unwrap();
    assert_eq!(BridgeCommand::decode(&bytes), Ok(BridgeCommand::Ping));
}

#[test]
fn command_with_unknown_tag_is_malformed() {
    assert_eq!(BridgeCommand::decode(&[2, 0, 0, 0]), Err(WireError::MalformedPayload));
    assert_eq!(BridgeCommand::decode(&[0, 1, 0, 0]), Err(WireError::MalformedPayload));
    assert_eq!(BridgeCommand::decode(&[0, 0, 0, 1]), Err(WireError::MalformedPayload));
}

#[test]
fn command_of_wrong_length_is_malformed() {
    assert_eq!(BridgeCommand::decode(&[]), Err(WireError::MalformedPayload));
    assert_eq!(BridgeCommand::decode(&[0, 0, 0]), Err(WireError::MalformedPayload));
    assert_eq!(BridgeCommand::decode(&[0, 0, 0, 0, 0]), Err(WireError::MalformedPayload));
}

#[test]
fn response_with_unknown_tag_is_malformed() {
    assert_eq!(BridgeResponse::decode(&[4, 0, 0, 0]), Err(WireError::MalformedPayload));
    assert_eq!(BridgeResponse::decode(&[0, 0, 0, 0x80]), Err(WireError::MalformedPayload));
}

#[test]
fn truncated_response_is_malformed() {
    let whole = gpu_info("Mock GPU", "1.2.3").encode();
    for cut in 0..whole.len() {
        assert_eq!(BridgeResponse::decode(&whole[..cut]), Err(WireError::MalformedPayload));
    }
}

#[test]
fn response_with_bytes_after_it_is_malformed() {
    for response in [BridgeResponse::Pong, gpu_info("a", "b"), BridgeResponse::Error("e".to_string()), BridgeResponse::Ack] {
        let mut bytes = response.encode();
        bytes.push(0);
        assert_eq!(BridgeResponse::decode(&bytes), Err(WireError::MalformedPayload));
    }
}

#[test]
fn text_that_is_not_utf8_is_malformed() {
    let bytes = vec![2, 0, 0, 0, 2, 0, 0, 0, 0, 0, 0, 0, 0xff, 0xfe];
    assert_eq!(BridgeResponse::decode(&bytes), Err(WireError::MalformedPayload));
    let bytes = vec![2, 0, 0, 0, 1, 0, 0, 0, 0, 0, 0, 0, 0xc3];
    assert_eq!(BridgeResponse::decode(&bytes), Err(WireError::MalformedPayload));
}

#[test]
fn text_length_beyond_the_payload_is_malformed() {
    let bytes = vec![2, 0, 0, 0, 3, 0, 0, 0, 0, 0, 0, 0, b'h', b'i'];
    assert_eq!(BridgeResponse::decode(&bytes), Err(WireError::MalformedPayload));
    let bytes = vec![2, 0, 0, 0, 0xff, 0xff, 0xff, 0xff, 0xff, 0xff, 0xff, 0xff, b'h', b'i'];
    assert_eq!(BridgeResponse::decode(&bytes), Err(WireError::MalformedPayload));
}

#[test]
fn clone_of_a_response_is_equal_to_it() {
    let response = gpu_info("Mock GPU", "1.2.3");
    assert_eq!(response.clone(), response);
}
