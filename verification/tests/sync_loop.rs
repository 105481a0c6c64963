use matrix_sync::room_channels::{keeps_channel, send_room_update};
use matrix_sync::sync::{
    delay_sync, sync_loop_helper, BaseSyncResponse, JoinedRoom, Notification, RoomUpdate, Rooms,
    SyncResponse, Timeline, SYNC_DELAY_NANOS,
};

fn base_response() -> BaseSyncResponse {
    let mut joined = JoinedRoom::default();
    joined.timeline = Timeline { limited: true, prev_batch: Some("p1".to_string()), events: vec!["{}".to_string()] };
    BaseSyncResponse {
        rooms: Rooms { leave: vec![], join: vec![("!a:x".to_string(), joined)], invite: vec![] },
        presence: vec!["{\"type\":\"m.presence\"}".to_string()],
        account_data: vec![],
        to_device: vec!["{\"type\":\"m.room_key\"}".to_string()],
        device_lists: Default::default(),
        device_one_time_keys_count: vec![("signed_curve25519".to_string(), 50)],
        ambiguity_changes: Default::default(),
        notifications: vec![("!a:x".to_string(), vec![Notification::default()])],
    }
}

#[test]
fn new_response_keeps_the_base_fields() {
    let r = SyncResponse::new("s72595_4483_1934".to_string(), base_response());
    assert_eq!(r.next_batch, "s72595_4483_1934");
    assert_eq!(r.rooms.join.len(), 1);
    assert_eq!(r.rooms.join[0].0, "!a:x");
    assert!(r.rooms.join[0].1.timeline.limited);
    assert_eq!(r.presence.len(), 1);
    assert_eq!(r.to_device[0], "{\"type\":\"m.room_key\"}");
    assert_eq!(r.device_one_time_keys_count, vec![("signed_curve25519".to_string(), 50)]);
    assert_eq!(r.notifications.len(), 1);
}

#[test]
fn successful_sync_sets_the_token() {
    let mut token = Some("old".to_string());
    let response = SyncResponse::new("next".to_string(), BaseSyncResponse::default());
    let r: Result<SyncResponse, String> = sync_loop_helper(&mut token, Ok(response));
    assert_eq!(r.unwrap().next_batch, "next");
    assert_eq!(token.as_deref(), Some("next"));
}

#[test]
fn first_successful_sync_sets_the_token() {
    let mut token = None;
    let response = SyncResponse::new("batch_1".to_string(), BaseSyncResponse::default());
    let r: Result<SyncResponse, ()> = sync_loop_helper(&mut token, Ok(response));
    assert!(r.is_ok());
    assert_eq!(token.as_deref(), Some("batch_1"));
}

#[test]
fn failed_sync_keeps_the_token() {
    let mut token = Some("old".to_string());
    let r: Result<SyncResponse, String> = sync_loop_helper(&mut token, Err("timeout".to_string()));
    assert_eq!(r.err().as_deref(), Some("timeout"));
    assert_eq!(token.as_deref(), Some("old"));
}

#[test]
fn no_delay_before_the_first_sync() {
    let mut last = None;
    assert!(!delay_sync(&mut last, 7));
    assert_eq!(last, Some(7));
}

#[test]
fn delay_when_the_last_sync_is_recent() {
    let mut last = Some(1_000);
    assert!(delay_sync(&mut last, 1_000 + 500_000_000));
    assert_eq!(last, Some(1_000 + 500_000_000));
}

#[test]
fn delay_at_exactly_one_second() {
    let mut last = Some(10);
    assert!(delay_sync(&mut last, 10 + SYNC_DELAY_NANOS));
    assert_eq!(last, Some(10 + SYNC_DELAY_NANOS));
}

#[test]
fn no_delay_after_more_than_one_second() {
    let mut last = Some(10);
    assert!(!delay_sync(&mut last, 11 + SYNC_DELAY_NANOS));
    assert_eq!(last, Some(11 + SYNC_DELAY_NANOS));
}

#[test]
fn delay_when_the_clock_seems_to_go_back() {
    let mut last = Some(5_000);
    assert!(delay_sync(&mut last, 4_000));
    assert_eq!(last, Some(4_000));
}

#[test]
fn channel_kept_only_with_receivers() {
    assert!(!keeps_channel(0));
    assert!(keeps_channel(1));
    assert!(keeps_channel(12));
}

#[test]
fn room_update_sent_to_receivers() {
    let (tx, mut rx) = tokio::sync::broadcast::channel::<RoomUpdate<u32>>(4);
    let (keep, _) = send_room_update(&tx, || RoomUpdate::Invited { room: 7, updates: Default::default() });
    assert!(keep);
    match rx.try_recv() {
        Ok(RoomUpdate::Invited { room, .. }) => assert_eq!(room, 7),
        _ => panic!("the update was not received"),
    }
}

#[test]
fn room_update_without_receivers_is_not_built() {
    let (tx, rx) = tokio::sync::broadcast::channel::<RoomUpdate<u32>>(4);
    drop(rx);
    let mut built = false;
    let (keep, _) = send_room_update(&tx, || {
        built = true;
        RoomUpdate::Joined { room: 1, updates: JoinedRoom::default() }
    });
    assert!(!keep);
    assert!(!built);
}
