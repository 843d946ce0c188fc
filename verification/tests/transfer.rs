use intershare_core::archive::{build_archive, PathNode};
use intershare_core::cipher::{ChunkOpener, ChunkSealer, seal_payload};
use intershare_core::connect::{clone_bytes, next_transport, plan_ble, plan_tcp, ConnectStep};
use intershare_core::errors::ConnectErrors;
use intershare_core::handshake::{
    generate_iv, generate_secret_key, responder_handshake, sender_handshake_finish,
    sender_handshake_request,
};
use intershare_core::messages::{
    BluetoothLeConnectionInfo, Device, DeviceConnectionInfo, TcpConnectionInfo,
};
use intershare_core::nearby::NearbyServer;
use intershare_core::session::{
    file_name_for, make_transfer_request, transfer_request_frame, ConnectionMedium,
    ReceiverSession, SenderSession, SendProgressState,
};
use intershare_core::wire::deframe_payload;

fn test_device() -> Device {
    Device {
        id: b"43ED2550-3E5F-4ACC-BF58-DD0361A605C5".to_vec(),
        name: b"Test Device".to_vec(),
        device_type: 0,
    }
}

/// Drive one whole transfer over in-memory buffers: handshake, request,
/// acceptance, bulk payload; checks the progress sequence and the delivered
/// bytes.
fn run_transfer(accept: bool, payload_file: Vec<u8>) -> (SenderSession, ReceiverSession, Vec<u8>, u64) {
    let mut sender = SenderSession::new();
    let mut receiver = ReceiverSession::new();

    // Transport selected, raw stream in hand.
    sender.on_dialed();

    // Handshake over the raw stream.
    let sa = generate_secret_key();
    let sb = generate_secret_key();
    let iv = generate_iv();
    let request_frame = sender_handshake_request(&sa);
    let (request_payload, _) = deframe_payload(request_frame.as_slice(), 0).unwrap();
    let (response_frame, ctx_b) =
        responder_handshake(&sb, iv, request_payload.as_slice()).unwrap();
    let (response_payload, _) = deframe_payload(response_frame.as_slice(), 0).unwrap();
    let ctx_a = sender_handshake_finish(&sa, response_payload.as_slice()).unwrap();
    sender.on_encrypted(ConnectionMedium::WiFi);

    let mut sealer = ChunkSealer::new(ctx_a.key, ctx_a.iv);
    let mut opener = ChunkOpener::new(ctx_b.key, ctx_b.iv);

    // Archive, then the request frame through the encrypted channel.
    sender.on_compressing();
    let roots = vec![PathNode::File { name: b"a.bin".to_vec(), data: payload_file }];
    let (archive_bytes, file_size) = build_archive(&roots).unwrap();
    let request = make_transfer_request(
        Some(test_device()),
        file_name_for(&roots),
        file_size,
        roots.len() as u64,
    );
    let frame = transfer_request_frame(&request);
    sender.on_request_sent(file_size);
    let sealed_request = sealer.seal_next(frame.as_slice());

    // Receiver side: open, deframe, parse.
    let (ct, _) = deframe_payload(sealed_request.as_slice(), 0).unwrap();
    let plain_frame = opener.open_next(ct.as_slice()).unwrap();
    let (request_bytes, _) = deframe_payload(plain_frame.as_slice(), 0).unwrap();
    let parsed = receiver.on_request_payload(request_bytes.as_slice()).unwrap();
    let intent = parsed.intent.unwrap();
    assert_eq!(intent.file_size, file_size);
    assert_eq!(intent.file_count, 1);
    assert_eq!(intent.file_name, Some(b"a.bin".to_vec()));

    // The delegate answers; the response travels back (not sealed here: the
    // sessions under test share the buffers directly).
    let _response_frame = receiver.decide(accept);
    if !accept {
        sender.on_declined();
        return (sender, receiver, archive_bytes, file_size);
    }
    sender.on_accepted();

    // Bulk payload, sealed chunk by chunk.
    let frames = seal_payload(&mut sealer, archive_bytes.as_slice());
    let mut done = false;
    for f in &frames {
        let (ct, _) = deframe_payload(f.as_slice(), 0).unwrap();
        let plain = opener.open_next(ct.as_slice()).unwrap();
        sender.on_chunk_written(plain.len() as u64);
        done = receiver.on_data(plain.as_slice());
    }
    sender.on_transfer_complete();
    assert!(done);
    (sender, receiver, archive_bytes, file_size)
}

#[test]
fn tcp_happy_path_progress_and_delivery() {
    let (sender, receiver, archive_bytes, file_size) = run_transfer(true, vec![0x5Au8; 1024]);

    // The receiver holds exactly the announced number of bytes: the archive.
    assert_eq!(receiver.received.len() as u64, file_size);
    assert_eq!(receiver.received, archive_bytes);

    // Expected progress sequence (prefix match up to the chunk updates).
    let p = &sender.progress;
    assert_eq!(p[0], SendProgressState::Connecting);
    assert_eq!(
        p[1],
        SendProgressState::ConnectionMediumUpdate { medium: ConnectionMedium::WiFi }
    );
    assert_eq!(p[2], SendProgressState::Compressing);
    assert_eq!(p[3], SendProgressState::Requesting);
    assert!(matches!(p[4], SendProgressState::Transferring { bytes_written: 0, .. }));
    assert_eq!(*p.last().unwrap(), SendProgressState::Finished);
}

#[test]
fn declined_transfer_reports_declined() {
    let (sender, _receiver, _bytes, _size) = run_transfer(false, vec![1u8; 64]);
    assert_eq!(*sender.progress.last().unwrap(), SendProgressState::Declined);
}

#[test]
fn concurrent_sessions_finish_independently() {
    let (s1, r1, _a1, n1) = run_transfer(true, vec![1u8; 2048]);
    let (s2, r2, _a2, n2) = run_transfer(true, vec![2u8; 100]);
    assert_eq!(*s1.progress.last().unwrap(), SendProgressState::Finished);
    assert_eq!(*s2.progress.last().unwrap(), SendProgressState::Finished);
    assert_eq!(r1.received.len() as u64, n1);
    assert_eq!(r2.received.len() as u64, n2);
    assert_ne!(r1.received, r2.received);
}

#[test]
fn receiver_stops_at_announced_size() {
    let mut receiver = ReceiverSession::new();
    let request = make_transfer_request(None, None, 5, 1);
    let frame = transfer_request_frame(&request);
    let (payload, _) = deframe_payload(frame.as_slice(), 0).unwrap();
    receiver.on_request_payload(payload.as_slice()).unwrap();
    receiver.decide(true);
    let done = receiver.on_data(&[1, 2, 3, 4, 5, 6, 7]);
    assert!(done);
    assert_eq!(receiver.received, vec![1, 2, 3, 4, 5]);
}

#[test]
fn tcp_unreachable_falls_back_to_ble() {
    let info = DeviceConnectionInfo {
        device: Some(test_device()),
        tcp: Some(TcpConnectionInfo { hostname: b"203.0.113.1".to_vec(), port: 1 }),
        ble: Some(BluetoothLeConnectionInfo { uuid: b"BLE-UUID".to_vec(), psm: 192 }),
    };
    // TCP is tried first: the selector builds the dial string.
    let (socket, port) = plan_tcp(&info).unwrap();
    assert_eq!(socket, b"203.0.113.1:1".to_vec());
    assert_eq!(port, 1);

    // The dial fails outside; the fallback picks the BLE details.
    let (uuid, psm) = plan_ble(&info, true).unwrap();
    assert_eq!(uuid, b"BLE-UUID".to_vec());
    assert_eq!(psm, 192);

    // The pending map holds the attempt until the platform answers.
    let mut server = NearbyServer::new(test_device(), b"/tmp/storage".to_vec(), true);
    let id = server.begin_l2cap_attempt();
    assert_eq!(id.len(), 36);
    assert_eq!(server.pending_l2cap.len(), 1);
    assert!(server.handle_incoming_ble_connection(&id));
    assert_eq!(server.pending_l2cap.len(), 0);

    // A sender that fell back reports the BLE medium.
    let mut sender = SenderSession::new();
    sender.on_dialed();
    sender.on_encrypted(ConnectionMedium::BLE);
    assert_eq!(
        *sender.progress.last().unwrap(),
        SendProgressState::ConnectionMediumUpdate { medium: ConnectionMedium::BLE }
    );
}

#[test]
fn selector_errors_name_the_missing_piece() {
    let bare = DeviceConnectionInfo { device: Some(test_device()), tcp: None, ble: None };
    assert!(matches!(plan_tcp(&bare).unwrap_err(), ConnectErrors::FailedToGetTcpDetails));
    assert!(matches!(plan_ble(&bare, true).unwrap_err(), ConnectErrors::FailedToGetBleDetails));

    let with_ble = DeviceConnectionInfo {
        device: None,
        tcp: None,
        ble: Some(BluetoothLeConnectionInfo { uuid: b"u".to_vec(), psm: 1 }),
    };
    assert!(matches!(
        plan_ble(&with_ble, false).unwrap_err(),
        ConnectErrors::InternalBleHandlerNotAvailable
    ));
}

#[test]
fn stop_is_idempotent_and_clears_advertise() {
    let mut server = NearbyServer::new(test_device(), b"/tmp".to_vec(), false);
    server.start(Some(TcpConnectionInfo { hostname: b"10.0.0.1".to_vec(), port: 42 }));
    assert!(server.advertise);
    assert!(server.has_tcp_server);

    server.stop();
    assert!(!server.advertise);
    assert!(!server.has_tcp_server);
    let tcp_before = server.device_connection_info.tcp.is_some();

    // Stopping again changes nothing and leaves the flag false.
    server.stop();
    assert!(!server.advertise);
    assert!(!server.has_tcp_server);
    assert_eq!(server.device_connection_info.tcp.is_some(), tcp_before);
}

#[test]
fn unknown_ble_connection_id_changes_nothing() {
    let mut server = NearbyServer::new(test_device(), b"/tmp".to_vec(), false);
    let id1 = server.begin_l2cap_attempt();
    let unknown = b"not-a-pending-id".to_vec();
    assert!(!server.handle_incoming_ble_connection(&unknown));
    assert_eq!(server.pending_l2cap.len(), 1);
    assert!(server.handle_incoming_ble_connection(&id1));
    assert_eq!(server.pending_l2cap.len(), 0);
}

#[test]
fn advertisement_bytes_follow_the_flag() {
    let mut server = NearbyServer::new(test_device(), b"/tmp".to_vec(), true);
    assert!(server.get_advertisement_data().is_empty());
    server.set_tcp_details(TcpConnectionInfo { hostname: b"10.0.0.2".to_vec(), port: 7 });
    server.start(None);
    let data = server.get_advertisement_data();
    assert!(!data.is_empty());
    // Codec-framed: the varint length prefix announces the rest.
    let (payload, used) = deframe_payload(data.as_slice(), 0).unwrap();
    assert_eq!(used, data.len());
    assert!(!payload.is_empty());
}

#[test]
fn device_name_comes_from_the_device() {
    let server = NearbyServer::new(test_device(), b"/tmp".to_vec(), false);
    assert_eq!(server.get_device_name(), Some(b"Test Device".to_vec()));
}

#[test]
fn discovery_registry_lookup() {
    let mut discovery = intershare_core::discovery::Discovery::new(None).unwrap();
    discovery.start();
    assert!(discovery.running);
    let info = DeviceConnectionInfo {
        device: Some(test_device()),
        tcp: Some(TcpConnectionInfo { hostname: b"10.1.1.1".to_vec(), port: 80 }),
        ble: None,
    };
    discovery.add_device(info);
    let devices = discovery.get_devices();
    assert_eq!(devices.len(), 1);
    assert_eq!(devices[0].name, b"Test Device".to_vec());

    let details = discovery.get_connection_details(&test_device()).unwrap();
    assert_eq!(details.tcp.unwrap().hostname, b"10.1.1.1".to_vec());

    let stranger = Device { id: b"other".to_vec(), name: b"o".to_vec(), device_type: 0 };
    assert!(discovery.get_connection_details(&stranger).is_none());

    discovery.stop();
    assert!(!discovery.running);
    assert_eq!(discovery.get_devices().len(), 1);
}

#[test]
fn clone_bytes_copies_exactly() {
    let v = b"abc".to_vec();
    assert_eq!(clone_bytes(&v), v);
}

#[test]
fn response_error_emits_terminal_unknown() {
    let mut sender = SenderSession::new();
    sender.on_dialed();
    sender.on_encrypted(ConnectionMedium::WiFi);
    sender.on_compressing();
    sender.on_request_sent(64);
    sender.on_response_error();
    assert_eq!(*sender.progress.last().unwrap(), SendProgressState::Unknown);
}

#[test]
fn selector_prefers_tcp_then_falls_back() {
    let info = DeviceConnectionInfo {
        device: Some(test_device()),
        tcp: Some(TcpConnectionInfo { hostname: b"203.0.113.1".to_vec(), port: 1 }),
        ble: Some(BluetoothLeConnectionInfo { uuid: b"BLE-UUID".to_vec(), psm: 192 }),
    };
    match next_transport(&info, false, true) {
        ConnectStep::DialTcp { socket, port } => {
            assert_eq!(socket, b"203.0.113.1:1".to_vec());
            assert_eq!(port, 1);
        },
        _ => panic!("TCP must come first"),
    }
    match next_transport(&info, true, true) {
        ConnectStep::OpenBle { uuid, psm } => {
            assert_eq!(uuid, b"BLE-UUID".to_vec());
            assert_eq!(psm, 192);
        },
        _ => panic!("BLE is the fallback after a TCP failure"),
    }
    let no_ble = DeviceConnectionInfo { device: None, tcp: None, ble: None };
    assert!(matches!(
        next_transport(&no_ble, true, true),
        ConnectStep::GiveUp { error: ConnectErrors::FailedToGetBleDetails }
    ));
    match next_transport(&info, true, false) {
        ConnectStep::GiveUp { error } => {
            assert!(matches!(error, ConnectErrors::InternalBleHandlerNotAvailable));
        },
        _ => panic!("a missing L2CAP handler must be reported"),
    }
}
