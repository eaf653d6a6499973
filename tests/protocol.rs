use y_sweet::api_types::Authorization;
use y_sweet::protocol::{
    admitted_messages, connection_step, handles_frames, read_message, read_var_uint, split_frame,
    ConnectionEvent, ConnectionState, FrameMessage, MessageKind, OutboundQueue,
    OUTBOUND_QUEUE_CAPACITY,
};

fn sync_update(payload: &[u8]) -> Vec<u8> {
    let mut f = vec![0u8, 2, payload.len() as u8];
    f.extend_from_slice(payload);
    f
}

fn awareness(payload: &[u8]) -> Vec<u8> {
    let mut f = vec![1u8, payload.len() as u8];
    f.extend_from_slice(payload);
    f
}

#[test]
fn var_uints() {
    assert_eq!(read_var_uint(&[5], 0), Some((5, 1)));
    assert_eq!(read_var_uint(&[0x80, 0x01], 0), Some((128, 2)));
    assert_eq!(read_var_uint(&[0xff, 0xff, 0x03], 0), Some((65535, 3)));
    assert_eq!(read_var_uint(&[9, 0xac, 0x02], 1), Some((300, 3)));
    assert_eq!(read_var_uint(&[0x80], 0), None);
    assert_eq!(read_var_uint(&[0x80; 11], 0), None);
}

#[test]
fn frame_messages() {
    let mut frame = vec![0u8, 0, 1, 0];
    frame.extend(sync_update(b"abc"));
    frame.extend(awareness(b"xy"));
    frame.extend([3u8]);
    frame.extend([2u8, 1]);
    let ms = split_frame(&frame).unwrap();
    let kinds: Vec<MessageKind> = ms.iter().map(|m| m.kind).collect();
    assert_eq!(
        kinds,
        vec![
            MessageKind::SyncStep1,
            MessageKind::SyncUpdate,
            MessageKind::Awareness,
            MessageKind::QueryAwareness,
            MessageKind::Auth,
        ]
    );
    assert_eq!(ms[1], FrameMessage { kind: MessageKind::SyncUpdate, start: 4, end: 10 });
    assert_eq!(read_message(&frame, 4), Some((MessageKind::SyncUpdate, 10)));
    assert_eq!(split_frame(&[]), Some(vec![]));
    assert_eq!(split_frame(&[7]), None);
    assert_eq!(split_frame(&[0, 3, 0]), None);
    assert_eq!(split_frame(&[0, 2, 5, 1]), None);
}

#[test]
fn read_only_writes_are_dropped() {
    let mut frame = sync_update(b"u1");
    frame.extend(awareness(b"presence"));
    frame.extend([0u8, 1, 1, 9]);
    let ro = admitted_messages(Authorization::ReadOnly, &frame).unwrap();
    assert_eq!(ro.len(), 1);
    assert_eq!(ro[0].kind, MessageKind::Awareness);
    let full = admitted_messages(Authorization::Full, &frame).unwrap();
    assert_eq!(full, split_frame(&frame).unwrap());
    assert_eq!(full.len(), 3);
    assert_eq!(admitted_messages(Authorization::Full, &[9, 9]), None);
}

#[test]
fn connection_lifecycle() {
    let mut s = ConnectionState::Connecting;
    assert!(!handles_frames(s));
    s = connection_step(s, ConnectionEvent::Authenticated { valid: true });
    assert_eq!(s, ConnectionState::Authorized);
    assert!(handles_frames(s));
    s = connection_step(s, ConnectionEvent::FrameReceived);
    assert_eq!(s, ConnectionState::Open);
    s = connection_step(s, ConnectionEvent::FrameReceived);
    assert_eq!(s, ConnectionState::Open);
    s = connection_step(s, ConnectionEvent::TransportError);
    assert_eq!(s, ConnectionState::Closing);
    assert!(!handles_frames(s));
    s = connection_step(s, ConnectionEvent::QueueDrained);
    assert_eq!(s, ConnectionState::Closed);
    assert_eq!(connection_step(s, ConnectionEvent::FrameReceived), ConnectionState::Closed);
    assert_eq!(
        connection_step(ConnectionState::Connecting, ConnectionEvent::Authenticated { valid: false }),
        ConnectionState::Closing
    );
    assert_eq!(
        connection_step(ConnectionState::Open, ConnectionEvent::Cancelled),
        ConnectionState::Closing
    );
}

#[test]
fn outbound_queue_drops_on_overflow_and_keeps_order() {
    let mut q = OutboundQueue::new();
    for i in 0..OUTBOUND_QUEUE_CAPACITY {
        assert!(q.push(vec![(i % 256) as u8]));
    }
    assert_eq!(q.len(), 1024);
    assert!(!q.push(vec![9, 9]));
    assert!(!q.push(vec![9, 9]));
    assert_eq!(q.dropped(), 2);
    assert_eq!(q.len(), 1024);
    assert_eq!(q.pop(), Some(vec![0]));
    assert_eq!(q.pop(), Some(vec![1]));
    assert!(q.push(vec![7]));
    while q.len() > 1 {
        q.pop();
    }
    assert_eq!(q.pop(), Some(vec![7]));
    assert_eq!(q.pop(), None);
}
