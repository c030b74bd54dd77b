use dungeon::frame::{encode_frame, FrameBuffer};
use dungeon::message::{relay_policy, Payload, RelayPolicy};
use dungeon::relay::{CachedPosition, Relay};

#[test]
fn frame_round_trip() {
    let payload: Vec<u8> = vec![7, 0, 255, 42, 1];
    let framed = encode_frame(&payload);
    assert_eq!(framed, vec![5, 0, 0, 0, 7, 0, 255, 42, 1]);
    let mut buf = FrameBuffer::new();
    buf.push(&framed);
    buf.push(&[9, 9]);
    assert_eq!(buf.next_frame(), Some(payload));
    assert_eq!(buf.len(), 2);
}

#[test]
fn frame_length_prefix_is_little_endian() {
    let payload: Vec<u8> = vec![1u8; 300];
    let framed = encode_frame(&payload);
    assert_eq!(&framed[..4], &[44, 1, 0, 0]);
    assert_eq!(framed.len(), 304);
}

#[test]
fn incomplete_frame_is_not_consumed() {
    let mut buf = FrameBuffer::new();
    buf.push(&[3, 0, 0]);
    assert_eq!(buf.next_frame(), None);
    assert_eq!(buf.len(), 3);
    buf.push(&[0, 1, 2]);
    assert_eq!(buf.next_frame(), None);
    assert_eq!(buf.len(), 6);
    buf.push(&[3]);
    assert_eq!(buf.next_frame(), Some(vec![1, 2, 3]));
    assert_eq!(buf.len(), 0);
}

#[test]
fn several_frames_in_one_read_are_drained() {
    let mut bytes = encode_frame(&vec![1]);
    bytes.extend(encode_frame(&vec![]));
    bytes.extend(encode_frame(&vec![2, 3]));
    bytes.extend([9, 0, 0]);
    let mut buf = FrameBuffer::new();
    buf.push(&bytes);
    let frames = buf.drain_frames();
    assert_eq!(frames, vec![vec![1], vec![], vec![2, 3]]);
    assert_eq!(buf.len(), 3);
}

#[test]
fn relay_policies() {
    assert_eq!(relay_policy(&Payload::Move(1, 0, 0)), RelayPolicy::UpdateThenOthers);
    assert_eq!(relay_policy(&Payload::Join(1)), RelayPolicy::ReplayThenOthers);
    assert_eq!(relay_policy(&Payload::Leave(1)), RelayPolicy::ForgetThenOthers);
    assert_eq!(relay_policy(&Payload::Shoot(1, 0, 0, 1, 0)), RelayPolicy::Others);
    assert_eq!(relay_policy(&Payload::PlayerDirection(1, 0, 1)), RelayPolicy::Others);
    assert_eq!(relay_policy(&Payload::BossDead), RelayPolicy::All);
    assert_eq!(relay_policy(&Payload::PlayerKill(1, 2)), RelayPolicy::All);
    assert_eq!(relay_policy(&Payload::BossMultiShoot(0, 0, vec![])), RelayPolicy::All);
}

#[test]
fn relay_assigns_increasing_ids() {
    let mut relay = Relay::new();
    assert_eq!(relay.accept(), Some(1));
    assert_eq!(relay.accept(), Some(2));
    assert_eq!(relay.client_ids(), vec![1, 2]);
}

#[test]
fn broadcast_to_others_excludes_sender() {
    let mut relay = Relay::new();
    let a = relay.accept().unwrap();
    let b = relay.accept().unwrap();
    let c = relay.accept().unwrap();
    let d = relay.dispatch(b, &Payload::Shoot(b, 0, 0, 1000, 0));
    assert_eq!(d.relay_to, vec![a, c]);
    assert!(d.replay.is_empty());
    let d = relay.dispatch(a, &Payload::PlayerDirection(a, 0, 1000));
    assert_eq!(d.relay_to, vec![b, c]);
    let d = relay.dispatch(b, &Payload::BossHit(10));
    assert_eq!(d.relay_to, vec![a, b, c]);
}

#[test]
fn join_replays_cached_positions() {
    let mut relay = Relay::new();
    let a = relay.accept().unwrap();
    let b = relay.accept().unwrap();
    let c = relay.accept().unwrap();
    relay.dispatch(a, &Payload::Move(a, 10, 20));
    relay.dispatch(b, &Payload::Move(b, 30, 40));
    let d = relay.dispatch(c, &Payload::Join(c));
    assert_eq!(
        d.replay,
        vec![Payload::Join(a), Payload::Move(a, 10, 20), Payload::Join(b), Payload::Move(b, 30, 40)]
    );
    assert_eq!(d.relay_to, vec![a, b]);
}

#[test]
fn move_updates_cache_in_place() {
    let mut relay = Relay::new();
    let a = relay.accept().unwrap();
    relay.dispatch(a, &Payload::Move(a, 1, 2));
    relay.dispatch(a, &Payload::Move(a, 5, 6));
    assert_eq!(relay.cached_positions(), vec![CachedPosition { id: a, x: 5, y: 6 }]);
    relay.dispatch(a, &Payload::Leave(a));
    assert!(relay.cached_positions().is_empty());
}

#[test]
fn disconnect_forgets_peer_and_names_remaining() {
    let mut relay = Relay::new();
    let a = relay.accept().unwrap();
    let b = relay.accept().unwrap();
    let c = relay.accept().unwrap();
    relay.dispatch(b, &Payload::Move(b, 3, 4));
    let leave_to = relay.disconnect(b);
    assert_eq!(leave_to, vec![a, c]);
    assert!(relay.cached_positions().is_empty());
    relay.evict(c);
    assert_eq!(relay.client_ids(), vec![a]);
    assert_eq!(relay.accept(), Some(4));
}

#[test]
fn frames_split_across_reads_come_back_in_order() {
    let messages: Vec<Vec<u8>> = vec![vec![1, 2, 3], vec![], vec![4; 10], vec![5]];
    let mut wire = Vec::new();
    for m in &messages {
        wire.extend(encode_frame(m));
    }
    for split in [1usize, 2, 3, 5, 7] {
        let mut buf = FrameBuffer::new();
        let mut got: Vec<Vec<u8>> = Vec::new();
        for chunk in wire.chunks(split) {
            buf.push(chunk);
            got.extend(buf.drain_frames());
        }
        assert_eq!(got, messages);
        assert_eq!(buf.len(), 0);
    }
}
