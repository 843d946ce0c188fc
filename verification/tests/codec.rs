use intershare_core::messages::{
    decode_device, decode_encryption_request, decode_encryption_response,
    decode_file_transfer_intent, decode_transfer_request, decode_transfer_request_response,
    encode_device, encode_device_connection_info, encode_device_discovery_message,
    encode_encryption_request, encode_encryption_response, encode_file_transfer_intent,
    encode_transfer_request, encode_transfer_request_response, BluetoothLeConnectionInfo, Device,
    DeviceConnectionInfo, DeviceDiscoveryMessage, DiscoveryContent, EncryptionRequest,
    EncryptionResponse, FileTransferIntent, TcpConnectionInfo, TransferRequest,
    TransferRequestResponse,
};
use intershare_core::wire::{deframe_payload, frame_payload};

#[test]
fn frame_small_payload_exact_bytes() {
    let payload = vec![7u8, 8, 9];
    let framed = frame_payload(&payload);
    assert_eq!(framed, vec![3u8, 7, 8, 9]);
    let (back, used) = deframe_payload(framed.as_slice(), 0).unwrap();
    assert_eq!(back, payload);
    assert_eq!(used, 4);
}

#[test]
fn frame_two_byte_varint_length() {
    // 300 bytes: length varint is 0xAC 0x02.
    let payload = vec![0xAAu8; 300];
    let framed = frame_payload(&payload);
    assert_eq!(framed[0], 0xAC);
    assert_eq!(framed[1], 0x02);
    assert_eq!(framed.len(), 302);
    let (back, used) = deframe_payload(framed.as_slice(), 0).unwrap();
    assert_eq!(back, payload);
    assert_eq!(used, 302);
}

#[test]
fn deframe_incomplete_frame_fails() {
    // Announces 5 bytes but carries 2.
    let bytes = vec![5u8, 1, 2];
    assert!(deframe_payload(bytes.as_slice(), 0).is_none());
}

#[test]
fn encryption_request_exact_encoding() {
    let m = EncryptionRequest { public_key: vec![1, 2, 3] };
    let mut out = Vec::new();
    encode_encryption_request(&m, &mut out);
    assert_eq!(out, vec![0x0au8, 3, 1, 2, 3]);
    let back = decode_encryption_request(out.as_slice()).unwrap();
    assert_eq!(back.public_key, vec![1, 2, 3]);
}

#[test]
fn encryption_response_roundtrips() {
    let m = EncryptionResponse { public_key: vec![9u8; 32], iv: vec![7u8; 24] };
    let mut out = Vec::new();
    encode_encryption_response(&m, &mut out);
    let back = decode_encryption_response(out.as_slice()).unwrap();
    assert_eq!(back.public_key, vec![9u8; 32]);
    assert_eq!(back.iv, vec![7u8; 24]);
}

#[test]
fn device_roundtrips_and_rejects_trailing_bytes() {
    let d = Device { id: b"ID-1".to_vec(), name: b"Test Device".to_vec(), device_type: 1 };
    let mut out = Vec::new();
    encode_device(&d, &mut out);
    let back = decode_device(out.as_slice()).unwrap();
    assert_eq!(back.id, b"ID-1".to_vec());
    assert_eq!(back.name, b"Test Device".to_vec());
    assert_eq!(back.device_type, 1);
    out.push(0);
    assert!(decode_device(out.as_slice()).is_none());
}

#[test]
fn file_transfer_intent_with_and_without_name() {
    let with = FileTransferIntent {
        file_name: Some(b"a.bin".to_vec()),
        file_size: 1100,
        file_count: 1,
    };
    let mut out = Vec::new();
    encode_file_transfer_intent(&with, &mut out);
    let back = decode_file_transfer_intent(out.as_slice()).unwrap();
    assert_eq!(back.file_name, Some(b"a.bin".to_vec()));
    assert_eq!(back.file_size, 1100);
    assert_eq!(back.file_count, 1);

    let without = FileTransferIntent { file_name: None, file_size: 0, file_count: 3 };
    let mut out2 = Vec::new();
    encode_file_transfer_intent(&without, &mut out2);
    let back2 = decode_file_transfer_intent(out2.as_slice()).unwrap();
    assert_eq!(back2.file_name, None);
    assert_eq!(back2.file_size, 0);
    assert_eq!(back2.file_count, 3);
}

#[test]
fn transfer_request_roundtrips_nested() {
    let m = TransferRequest {
        device: Some(Device { id: b"id".to_vec(), name: b"n".to_vec(), device_type: 0 }),
        intent: Some(FileTransferIntent {
            file_name: Some(b"d".to_vec()),
            file_size: 42,
            file_count: 1,
        }),
    };
    let mut out = Vec::new();
    encode_transfer_request(&m, &mut out);
    let back = decode_transfer_request(out.as_slice()).unwrap();
    let dev = back.device.unwrap();
    assert_eq!(dev.id, b"id".to_vec());
    let intent = back.intent.unwrap();
    assert_eq!(intent.file_size, 42);
    assert_eq!(intent.file_name, Some(b"d".to_vec()));
}

#[test]
fn transfer_request_response_both_values() {
    for accepted in [true, false] {
        let mut out = Vec::new();
        encode_transfer_request_response(&TransferRequestResponse { accepted }, &mut out);
        if accepted {
            assert_eq!(out, vec![0x08u8, 1]);
        } else {
            assert!(out.is_empty());
        }
        let back = decode_transfer_request_response(out.as_slice()).unwrap();
        assert_eq!(back.accepted, accepted);
    }
}

#[test]
fn garbage_input_is_rejected() {
    let garbage = vec![0xFFu8, 0xFF, 0xFF];
    assert!(decode_encryption_request(garbage.as_slice()).is_none());
    assert!(decode_encryption_response(garbage.as_slice()).is_none());
    assert!(decode_transfer_request(garbage.as_slice()).is_none());
    assert!(decode_transfer_request_response(garbage.as_slice()).is_none());
}

#[test]
fn discovery_message_encodes_connection_info() {
    let info = DeviceConnectionInfo {
        device: Some(Device { id: b"x".to_vec(), name: b"y".to_vec(), device_type: 2 }),
        tcp: Some(TcpConnectionInfo { hostname: b"192.168.1.5".to_vec(), port: 4200 }),
        ble: Some(BluetoothLeConnectionInfo { uuid: b"u".to_vec(), psm: 192 }),
    };
    let msg = DeviceDiscoveryMessage { content: Some(DiscoveryContent::ConnectionInfo(info)) };
    let mut out = Vec::new();
    encode_device_discovery_message(&msg, &mut out);
    // Field one, length-delimited, holding the nested connection info.
    assert_eq!(out[0], 0x0a);
    assert!(out.len() > 20);
}
