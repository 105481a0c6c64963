use matrix_sync::dispatch::{SyncAction, SyncDispatcher, SyncEvent, SyncOutline};
use matrix_sync::sync::{BaseSyncResponse, InvitedRoom, JoinedRoom, LeftRoom, Notification, Rooms, Timeline};

use matrix_sync::dispatch::HandlerKind::{
    EphemeralRoomData, GlobalAccountData, Presence, RoomAccountData, StrippedState, ToDevice,
};
use matrix_sync::dispatch::Membership::{Invited, Joined, Left};
use matrix_sync::dispatch::SyncAction::{
    FetchNotificationHandlers, Finish, HandleGlobalEvents, HandleRoomEvents, HandleStateEvents,
    HandleTimelineEvents, LookupNotificationRoom, LookupRoom, NotifySyncGap, QueueNotifications,
    RunNotificationHandlers, SendRoomUpdate,
};

/// Drives a dispatch, answering each action with `answer`, and returns every
/// action answered, the first one included.
fn drive(outline: SyncOutline, mut answer: impl FnMut(&SyncAction) -> SyncEvent) -> Vec<SyncAction> {
    let (mut d, first) = SyncDispatcher::start(outline);
    let mut actions = vec![first];
    while !d.is_finished() {
        let event = answer(actions.last().unwrap());
        assert!(d.accepts(&event));
        actions.push(d.next(event));
    }
    actions
}

fn all_found(handlers: usize) -> impl FnMut(&SyncAction) -> SyncEvent {
    move |a| match a {
        LookupRoom(..) | LookupNotificationRoom(_) => SyncEvent::RoomFound(true),
        FetchNotificationHandlers => SyncEvent::HandlersFetched(handlers),
        _ => SyncEvent::Completed,
    }
}

#[test]
fn empty_response_runs_global_handlers_only() {
    let outline = SyncOutline { joined: vec![], left: vec![], invited: 0, notification_rooms: 0 };
    let actions = drive(outline, all_found(2));
    assert_eq!(
        actions,
        vec![
            HandleGlobalEvents(GlobalAccountData),
            HandleGlobalEvents(Presence),
            HandleGlobalEvents(ToDevice),
            FetchNotificationHandlers,
            RunNotificationHandlers,
            Finish(true),
        ]
    );
}

#[test]
fn joined_room_handlers_in_order_with_ephemeral_after_timeline() {
    let outline = SyncOutline { joined: vec![false], left: vec![], invited: 0, notification_rooms: 0 };
    let actions = drive(outline, all_found(0));
    assert_eq!(
        &actions[3..10],
        &[
            LookupRoom(Joined, 0),
            SendRoomUpdate(Joined, 0),
            HandleRoomEvents(RoomAccountData, Joined, 0),
            HandleStateEvents(Joined, 0),
            HandleTimelineEvents(Joined, 0),
            HandleRoomEvents(EphemeralRoomData, Joined, 0),
            FetchNotificationHandlers,
        ]
    );
}

#[test]
fn limited_timeline_notifies_the_gap_even_for_an_unknown_room() {
    let outline = SyncOutline { joined: vec![true], left: vec![true], invited: 0, notification_rooms: 0 };
    let actions = drive(outline, |a| match a {
        LookupRoom(..) => SyncEvent::RoomFound(false),
        FetchNotificationHandlers => SyncEvent::HandlersFetched(0),
        _ => SyncEvent::Completed,
    });
    assert_eq!(
        actions,
        vec![
            HandleGlobalEvents(GlobalAccountData),
            HandleGlobalEvents(Presence),
            HandleGlobalEvents(ToDevice),
            NotifySyncGap(Joined, 0),
            LookupRoom(Joined, 0),
            NotifySyncGap(Left, 0),
            LookupRoom(Left, 0),
            FetchNotificationHandlers,
            RunNotificationHandlers,
            Finish(true),
        ]
    );
}

#[test]
fn rooms_go_joined_then_left_then_invited() {
    let outline = SyncOutline { joined: vec![false], left: vec![false], invited: 1, notification_rooms: 0 };
    let actions = drive(outline, all_found(0));
    assert_eq!(
        actions,
        vec![
            HandleGlobalEvents(GlobalAccountData),
            HandleGlobalEvents(Presence),
            HandleGlobalEvents(ToDevice),
            LookupRoom(Joined, 0),
            SendRoomUpdate(Joined, 0),
            HandleRoomEvents(RoomAccountData, Joined, 0),
            HandleStateEvents(Joined, 0),
            HandleTimelineEvents(Joined, 0),
            HandleRoomEvents(EphemeralRoomData, Joined, 0),
            LookupRoom(Left, 0),
            SendRoomUpdate(Left, 0),
            HandleRoomEvents(RoomAccountData, Left, 0),
            HandleStateEvents(Left, 0),
            HandleTimelineEvents(Left, 0),
            LookupRoom(Invited, 0),
            SendRoomUpdate(Invited, 0),
            HandleRoomEvents(StrippedState, Invited, 0),
            FetchNotificationHandlers,
            RunNotificationHandlers,
            Finish(true),
        ]
    );
}

#[test]
fn handler_failure_stops_the_dispatch() {
    let outline = SyncOutline { joined: vec![false, false], left: vec![], invited: 0, notification_rooms: 1 };
    let actions = drive(outline, |a| match a {
        HandleStateEvents(Joined, 0) => SyncEvent::Failed,
        LookupRoom(..) | LookupNotificationRoom(_) => SyncEvent::RoomFound(true),
        FetchNotificationHandlers => SyncEvent::HandlersFetched(1),
        _ => SyncEvent::Completed,
    });
    assert_eq!(actions.len(), 8);
    assert_eq!(actions[6], HandleStateEvents(Joined, 0));
    assert_eq!(actions[7], Finish(false));
}

#[test]
fn global_handler_failure_stops_before_rooms() {
    let outline = SyncOutline { joined: vec![true], left: vec![], invited: 0, notification_rooms: 0 };
    let actions = drive(outline, |a| match a {
        HandleGlobalEvents(Presence) => SyncEvent::Failed,
        _ => SyncEvent::Completed,
    });
    assert_eq!(
        actions,
        vec![HandleGlobalEvents(GlobalAccountData), HandleGlobalEvents(Presence), Finish(false)]
    );
}

#[test]
fn notifications_are_queued_per_handler_then_run_once() {
    let outline = SyncOutline { joined: vec![], left: vec![], invited: 0, notification_rooms: 2 };
    let actions = drive(outline, |a| match a {
        LookupNotificationRoom(1) => SyncEvent::RoomFound(false),
        LookupNotificationRoom(_) => SyncEvent::RoomFound(true),
        FetchNotificationHandlers => SyncEvent::HandlersFetched(2),
        _ => SyncEvent::Completed,
    });
    assert_eq!(
        &actions[3..],
        &[
            FetchNotificationHandlers,
            LookupNotificationRoom(0),
            QueueNotifications { handler: 0, room: 0 },
            LookupNotificationRoom(1),
            LookupNotificationRoom(0),
            QueueNotifications { handler: 1, room: 0 },
            LookupNotificationRoom(1),
            RunNotificationHandlers,
            Finish(true),
        ]
    );
}

#[test]
fn finished_dispatch_awaits_nothing() {
    let outline = SyncOutline { joined: vec![], left: vec![], invited: 0, notification_rooms: 0 };
    let (mut d, _) = SyncDispatcher::start(outline);
    assert!(!d.accepts(&SyncEvent::RoomFound(true)));
    assert_eq!(d.next(SyncEvent::Failed), Finish(false));
    assert!(d.is_finished());
    assert!(!d.accepts(&SyncEvent::Completed));
    assert!(!d.accepts(&SyncEvent::Failed));
}

#[test]
fn outline_of_a_response() {
    let limited = Timeline { limited: true, prev_batch: None, events: vec![] };
    let mut j1 = JoinedRoom::default();
    j1.timeline = limited.clone();
    let j2 = JoinedRoom::default();
    let l1 = LeftRoom { timeline: limited, state: vec![], account_data: vec![] };
    let response = BaseSyncResponse {
        rooms: Rooms {
            leave: vec![("!l:x".to_string(), l1)],
            join: vec![("!j1:x".to_string(), j1), ("!j2:x".to_string(), j2)],
            invite: vec![("!i:x".to_string(), InvitedRoom::default()), ("!i2:x".to_string(), InvitedRoom::default())],
        },
        notifications: vec![("!j1:x".to_string(), vec![Notification::default(), Notification::default()])],
        ..Default::default()
    };
    let o = SyncOutline::of(&response);
    assert_eq!(o.joined, vec![true, false]);
    assert_eq!(o.left, vec![true]);
    assert_eq!(o.invited, 2);
    assert_eq!(o.notification_rooms, 1);
    let (_, first) = SyncDispatcher::for_response(&response);
    assert_eq!(first, HandleGlobalEvents(GlobalAccountData));
}
