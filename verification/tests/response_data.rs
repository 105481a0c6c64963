use matrix_sync::dispatch::HandlerKind::{
    EphemeralRoomData, GlobalAccountData, Presence, RoomAccountData, StrippedState, ToDevice,
};
use matrix_sync::dispatch::Membership::{Invited, Joined, Left};
use matrix_sync::dispatch::SyncAction::{
    HandleGlobalEvents, HandleRoomEvents, HandleStateEvents, HandleTimelineEvents, LookupRoom,
};
use matrix_sync::key_order::{id_before, ids_ascending_exec, keys_distinct_exec};
use matrix_sync::response_data::{events_for, notification_entry, room_id_of, room_update};
use matrix_sync::sync::{
    sync_loop_helper, AmbiguityChange, AmbiguityChanges, BaseSyncResponse, InvitedRoom, JoinedRoom,
    LeftRoom, Notification, RoomUpdate, Rooms, SyncResponse, Timeline, UnreadNotificationsCount,
};

fn strings(v: &[&str]) -> Vec<String> {
    v.iter().map(|s| s.to_string()).collect()
}

fn response() -> BaseSyncResponse {
    let joined = JoinedRoom {
        unread_notifications: UnreadNotificationsCount { highlight_count: 1, notification_count: 3 },
        timeline: Timeline { limited: true, prev_batch: Some("t0".to_string()), events: strings(&["tl1", "tl2"]) },
        state: strings(&["st"]),
        account_data: strings(&["ad"]),
        ephemeral: strings(&["eph"]),
    };
    let left = LeftRoom {
        timeline: Timeline { limited: false, prev_batch: None, events: strings(&["ltl"]) },
        state: strings(&["lst"]),
        account_data: strings(&["lad"]),
    };
    BaseSyncResponse {
        rooms: Rooms {
            leave: vec![("!l:x".to_string(), left)],
            join: vec![("!a:x".to_string(), JoinedRoom::default()), ("!b:x".to_string(), joined)],
            invite: vec![("!i:x".to_string(), InvitedRoom { invite_state: strings(&["inv"]) })],
        },
        presence: strings(&["pr"]),
        account_data: strings(&["gad"]),
        to_device: strings(&["td"]),
        notifications: vec![("!b:x".to_string(), vec![Notification::default()])],
        ..Default::default()
    }
}

#[test]
fn room_ids_by_membership_and_position() {
    let r = response();
    assert_eq!(room_id_of(&r, Joined, 1).map(String::as_str), Some("!b:x"));
    assert_eq!(room_id_of(&r, Left, 0).map(String::as_str), Some("!l:x"));
    assert_eq!(room_id_of(&r, Invited, 0).map(String::as_str), Some("!i:x"));
    assert_eq!(room_id_of(&r, Joined, 2), None);
}

#[test]
fn each_handler_action_gets_its_list() {
    let r = response();
    assert_eq!(events_for(&r, &HandleGlobalEvents(GlobalAccountData)), Some(&strings(&["gad"])));
    assert_eq!(events_for(&r, &HandleGlobalEvents(Presence)), Some(&strings(&["pr"])));
    assert_eq!(events_for(&r, &HandleGlobalEvents(ToDevice)), Some(&strings(&["td"])));
    assert_eq!(events_for(&r, &HandleRoomEvents(RoomAccountData, Joined, 1)), Some(&strings(&["ad"])));
    assert_eq!(events_for(&r, &HandleStateEvents(Joined, 1)), Some(&strings(&["st"])));
    assert_eq!(events_for(&r, &HandleTimelineEvents(Joined, 1)), Some(&strings(&["tl1", "tl2"])));
    assert_eq!(events_for(&r, &HandleRoomEvents(EphemeralRoomData, Joined, 1)), Some(&strings(&["eph"])));
    assert_eq!(events_for(&r, &HandleRoomEvents(RoomAccountData, Left, 0)), Some(&strings(&["lad"])));
    assert_eq!(events_for(&r, &HandleStateEvents(Left, 0)), Some(&strings(&["lst"])));
    assert_eq!(events_for(&r, &HandleTimelineEvents(Left, 0)), Some(&strings(&["ltl"])));
    assert_eq!(events_for(&r, &HandleRoomEvents(StrippedState, Invited, 0)), Some(&strings(&["inv"])));
}

#[test]
fn actions_without_a_list_get_none() {
    let r = response();
    assert_eq!(events_for(&r, &HandleRoomEvents(EphemeralRoomData, Left, 0)), None);
    assert_eq!(events_for(&r, &HandleStateEvents(Joined, 5)), None);
    assert_eq!(events_for(&r, &HandleGlobalEvents(RoomAccountData)), None);
    assert_eq!(events_for(&r, &LookupRoom(Joined, 0)), None);
}

#[test]
fn room_update_carries_the_room_and_its_entry() {
    let r = response();
    match room_update(&r, Joined, 1, 42u32) {
        Some(RoomUpdate::Joined { room, updates }) => {
            assert_eq!(room, 42);
            assert!(updates.timeline.limited);
            assert_eq!(updates.timeline.prev_batch.as_deref(), Some("t0"));
            assert_eq!(updates.timeline.events, strings(&["tl1", "tl2"]));
            assert_eq!(updates.ephemeral, strings(&["eph"]));
            assert_eq!(updates.unread_notifications.notification_count, 3);
        }
        _ => panic!("expected a joined update"),
    }
    match room_update(&r, Left, 0, 7u32) {
        Some(RoomUpdate::Left { room, updates }) => {
            assert_eq!(room, 7);
            assert_eq!(updates.state, strings(&["lst"]));
        }
        _ => panic!("expected a left update"),
    }
    match room_update(&r, Invited, 0, 9u32) {
        Some(RoomUpdate::Invited { room, updates }) => {
            assert_eq!(room, 9);
            assert_eq!(updates.invite_state, strings(&["inv"]));
        }
        _ => panic!("expected an invited update"),
    }
    assert!(room_update(&r, Invited, 1, 0u32).is_none());
}

#[test]
fn notification_entries_by_position() {
    let r = response();
    let (id, ns) = notification_entry(&r, 0).unwrap();
    assert_eq!(id, "!b:x");
    assert_eq!(ns.len(), 1);
    assert!(notification_entry(&r, 1).is_none());
}

#[test]
fn identifier_order() {
    let s = |x: &str| x.to_string();
    assert!(id_before(&s("!a:x"), &s("!b:x")));
    assert!(!id_before(&s("!b:x"), &s("!a:x")));
    assert!(id_before(&s("!a"), &s("!a:x")));
    assert!(!id_before(&s("!a:x"), &s("!a:x")));
    assert!(id_before(&s("!Z"), &s("!a")));
    assert!(id_before(&s("!é"), &s("!😀")));
    assert!(!id_before(&s(""), &s("")));
    assert!(id_before(&s(""), &s("a")));
}

#[test]
fn key_order_of_lists() {
    let v = |ks: &[&str]| ks.iter().map(|k| (k.to_string(), 0u8)).collect::<Vec<_>>();
    assert!(ids_ascending_exec(&v(&[])));
    assert!(ids_ascending_exec(&v(&["!a", "!b", "!c"])));
    assert!(!ids_ascending_exec(&v(&["!a", "!c", "!b"])));
    assert!(!ids_ascending_exec(&v(&["!a", "!a"])));
    assert!(keys_distinct_exec(&v(&["ed25519", "curve25519"])));
    assert!(!keys_distinct_exec(&v(&["x", "y", "x"])));
}

#[test]
fn response_key_order() {
    let r = response();
    assert!(r.keys_in_order());
    let mut bad = response();
    bad.rooms.join.reverse();
    assert!(!bad.keys_in_order());
    let mut bad_inner = response();
    bad_inner.ambiguity_changes = AmbiguityChanges {
        changes: vec![(
            "!a:x".to_string(),
            vec![("$e2".to_string(), AmbiguityChange::default()), ("$e1".to_string(), AmbiguityChange::default())],
        )],
    };
    assert!(!bad_inner.keys_in_order());
    let mut bad_keys = response();
    bad_keys.device_one_time_keys_count = vec![("ed25519".to_string(), 1), ("ed25519".to_string(), 2)];
    assert!(!bad_keys.keys_in_order());
    let s = SyncResponse::new("b".to_string(), response());
    assert!(s.keys_in_order());
}

#[test]
fn token_is_the_last_successful_batch() {
    let mut token = None;
    let mut step = |outcome: Result<&str, ()>| {
        let r = outcome.map(|b| SyncResponse::new(b.to_string(), BaseSyncResponse::default()));
        let _ = sync_loop_helper(&mut token, r);
        token.clone()
    };
    assert_eq!(step(Err(())), None);
    assert_eq!(step(Ok("b1")), Some("b1".to_string()));
    assert_eq!(step(Ok("b2")), Some("b2".to_string()));
    assert_eq!(step(Err(())), Some("b2".to_string()));
    assert_eq!(step(Err(())), Some("b2".to_string()));
    assert_eq!(step(Ok("b3")), Some("b3".to_string()));
}

#[test]
fn room_update_of_a_room_reaches_its_receivers() {
    let r = response();
    let (tx, mut rx) = tokio::sync::broadcast::channel::<RoomUpdate<u32>>(4);
    assert!(matrix_sync::response_data::send_room_update_of(&tx, &r, Left, 0, 5).0);
    match rx.try_recv() {
        Ok(RoomUpdate::Left { room, updates }) => {
            assert_eq!(room, 5);
            assert_eq!(updates.account_data, strings(&["lad"]));
        }
        _ => panic!("expected the left room's update"),
    }
    drop(rx);
    assert!(!matrix_sync::response_data::send_room_update_of(&tx, &r, Left, 0, 5).0);
}
