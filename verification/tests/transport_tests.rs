use silence::packet::{VoipHeader, VoipMessageType};
use silence::queue::{BoundedQueue, QUEUE_CAPACITY};
use silence::udp::client::{build_checked_message, client_pump_step, ClientAction, ClientEvent};
use silence::udp::server::{
    server_pump_step, CancellationController, ClientList, ServerAction, ServerEvent,
};
use silence::packet::CodecError;
use silence::udp::PeerAddr;
use silence::udp::UdpError;

fn addr(ip: u128, port: u16) -> PeerAddr {
    PeerAddr { ip, port }
}

#[test]
fn registry_insert_then_remove_reports_present() {
    let mut registry = ClientList::new();
    let a = addr(1, 4000);
    registry.insert(a);
    assert_eq!(registry.remove(&a), Some(a));
    assert_eq!(registry.remove(&a), None);
}

#[test]
fn registry_remove_absent_reports_absent() {
    let mut registry = ClientList::new();
    assert_eq!(registry.remove(&addr(9, 9)), None);
}

#[test]
fn registry_insert_is_idempotent() {
    let mut registry = ClientList::new();
    let a = addr(7, 7777);
    registry.insert(a);
    registry.insert(a);
    assert_eq!(registry.len(), 1);
    assert_eq!(registry.snapshot(), vec![a]);
}

#[test]
fn registry_distinct_inserts_yield_distinct_snapshot() {
    let mut registry = ClientList::new();
    let n: u16 = 100;
    for i in 0..n {
        registry.insert(addr(i as u128, i));
    }
    let snapshot = registry.snapshot();
    assert_eq!(snapshot.len(), n as usize);
    for i in 0..n as usize {
        for j in 0..i {
            assert_ne!(snapshot[i], snapshot[j]);
        }
    }
}

#[test]
fn queue_backpressure_at_capacity() {
    let mut queue: BoundedQueue<u32> = BoundedQueue::new();
    for i in 0..QUEUE_CAPACITY as u32 {
        assert!(queue.try_enqueue(i).is_ok());
    }
    assert_eq!(queue.len(), 255);
    assert_eq!(queue.try_enqueue(999), Err(999));
    assert_eq!(queue.len(), 255);
    assert_eq!(queue.dequeue(), Some(0));
    assert!(queue.try_enqueue(999).is_ok());
    assert_eq!(queue.len(), 255);
}

#[test]
fn queue_is_first_in_first_out() {
    let mut queue: BoundedQueue<&str> = BoundedQueue::new();
    assert_eq!(queue.dequeue(), None);
    queue.try_enqueue("first").unwrap();
    queue.try_enqueue("second").unwrap();
    queue.try_enqueue("third").unwrap();
    assert_eq!(queue.dequeue(), Some("first"));
    assert_eq!(queue.dequeue(), Some("second"));
    assert_eq!(queue.dequeue(), Some("third"));
    assert_eq!(queue.dequeue(), None);
}

#[test]
fn cancellation_is_one_way_and_idempotent() {
    let mut controller = CancellationController::new();
    assert!(!controller.is_signalled());
    controller.signal();
    assert!(controller.is_signalled());
    controller.signal();
    assert!(controller.is_signalled());
}

#[test]
fn server_pump_exits_only_on_cancellation() {
    let registry = ClientList::new();
    assert!(matches!(
        server_pump_step(&registry, ServerEvent::Cancelled),
        ServerAction::Exit
    ));
    let frame = VoipHeader::new(VoipMessageType::VoiceMessage(1), 1)
        .create_message_buffer(&[1])
        .unwrap();
    assert!(!matches!(
        server_pump_step(&registry, ServerEvent::Broadcast(frame)),
        ServerAction::Exit
    ));
}

#[test]
fn broadcast_fans_out_once_per_registered_peer() {
    let mut registry = ClientList::new();
    let a = addr(1, 1);
    let b = addr(2, 2);
    let c = addr(3, 3);
    registry.insert(a);
    registry.insert(b);
    registry.insert(c);
    let frame = VoipHeader::new(VoipMessageType::VoiceMessage(1), 1)
        .create_message_buffer(&[1])
        .unwrap();
    let payload_bytes = frame.inner().to_vec();
    match server_pump_step(&registry, ServerEvent::Broadcast(frame)) {
        ServerAction::SendToAll(targets, outgoing) => {
            assert_eq!(targets, vec![a, b, c]);
            assert_eq!(outgoing.inner(), payload_bytes.as_slice());
            // A failed send to one target is isolated: the remaining targets
            // still each get their one send.
            let mut delivered = Vec::new();
            for target in targets {
                if target == b {
                    continue; // the send to b failed
                }
                delivered.push(target);
            }
            assert_eq!(delivered, vec![a, c]);
        },
        other => panic!("unexpected action: {other:?}"),
    }
}

#[test]
fn client_pump_forwards_outbound_frames() {
    let frame = VoipHeader::new(VoipMessageType::VoiceMessage(2), 5)
        .create_message_buffer(&[4, 4])
        .unwrap();
    let bytes = frame.inner().to_vec();
    match client_pump_step(ClientEvent::Outbound(frame)) {
        ClientAction::SendFrame(outgoing) => assert_eq!(outgoing.inner(), bytes.as_slice()),
        other => panic!("unexpected action: {other:?}"),
    }
}

#[test]
fn client_pump_discards_bad_datagrams_without_exiting() {
    match client_pump_step(ClientEvent::Datagram(vec![0; 3])) {
        ClientAction::Discard(_) => {},
        other => panic!("unexpected action: {other:?}"),
    }
}

#[test]
fn build_checked_message_rejects_oversize() {
    let r = build_checked_message(VoipMessageType::VoiceMessage(1300), 1, &[0; 1300]);
    assert!(matches!(r, Err(CodecError::OversizeDiscard)));
    let r = build_checked_message(VoipMessageType::VoiceMessage(4), 1, &[0; 4]);
    assert!(r.unwrap().fits_mtu());
}

#[test]
fn relay_delivers_and_echoes_payload() {
    // A client with identity `author` frames VoiceMessage(1) with payload [1]
    // and sends it towards a server at port 3004.
    let author: u128 = 0xfeed_beef;
    let client_addr = addr(0x1, 50000);
    let header = VoipHeader::new(VoipMessageType::VoiceMessage(1), author);
    let frame = header.create_message_buffer(&[1]).unwrap();
    assert!(frame.fits_mtu());

    // The server's pump receives that datagram and hands the decoded message,
    // tagged with the sender, to the application.
    let mut registry = ClientList::new();
    let datagram = frame.inner().to_vec();
    let (inbound_header, inbound_payload, sender) =
        match server_pump_step(&registry, ServerEvent::Datagram(datagram, client_addr)) {
            ServerAction::DeliverInbound(h, p, s) => (h, p, s),
            other => panic!("unexpected action: {other:?}"),
        };
    assert_eq!(inbound_header, header);
    assert_eq!(inbound_payload, vec![1]);
    assert_eq!(sender, client_addr);

    // The application registers the sender and broadcasts the same payload.
    registry.insert(sender);
    let echo = inbound_header.create_message_buffer(&inbound_payload).unwrap();
    let echoed_bytes = echo.inner().to_vec();
    match server_pump_step(&registry, ServerEvent::Broadcast(echo)) {
        ServerAction::SendToAll(targets, outgoing) => {
            assert_eq!(targets, vec![client_addr]);
            // The client's pump decodes the echoed datagram back to the
            // identical payload.
            let datagram = outgoing.inner().to_vec();
            assert_eq!(datagram, echoed_bytes);
            match client_pump_step(ClientEvent::Datagram(datagram)) {
                ClientAction::DeliverInbound(h, p) => {
                    assert_eq!(h, header);
                    assert_eq!(p, vec![1]);
                },
                other => panic!("unexpected action: {other:?}"),
            }
        },
        other => panic!("unexpected action: {other:?}"),
    }
}

#[test]
fn udp_error_descriptions() {
    let e = UdpError::SendError(std::io::Error::new(std::io::ErrorKind::Other, "boom"));
    assert_eq!(e.describe(), "Failed to send message.");
    let e = UdpError::BindError(std::io::Error::new(std::io::ErrorKind::Other, "boom"));
    assert_eq!(e.describe(), "Failed to bind to local address.");
    let e = UdpError::ConnectionError(std::io::Error::new(std::io::ErrorKind::Other, "boom"));
    assert_eq!(e.describe(), "Failed to resolve remote address.");
}
