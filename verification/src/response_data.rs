//! What each action of the dispatcher takes from the response: the room it
//! names, the list of events it hands to the handlers, the notification
//! entry it queues, and the update it sends to a room's subscribers.
use crate::dispatch::{
    issued, outline_of, room_count, room_start, runs_handlers, stage_wf, HandlerKind, Membership, Stage,
    SyncAction,
};
use crate::sync::{BaseSyncResponse, InvitedRoom, JoinedRoom, LeftRoom, Notification, RoomUpdate, Timeline};
use crate::key_order::{id_less, response_in_order};
use crate::room_channels::send_room_update;
use tokio::sync::broadcast::Sender;
use vstd::prelude::*;

verus! {

/// The identifier of room `i` of membership `m`, if there is such a room.
pub open spec fn room_id(r: BaseSyncResponse, m: Membership, i: int) -> Option<String> {
    match m {
        Membership::Joined => if 0 <= i < r.rooms.join@.len() {
            Some(r.rooms.join@[i].0)
        } else {
            None
        },
        Membership::Left => if 0 <= i < r.rooms.leave@.len() {
            Some(r.rooms.leave@[i].0)
        } else {
            None
        },
        Membership::Invited => if 0 <= i < r.rooms.invite@.len() {
            Some(r.rooms.invite@[i].0)
        } else {
            None
        },
    }
}

/// The list of events that an action hands to the handlers: the global
/// account data, presence and to-device events; a room's account data, state,
/// timeline and ephemeral events; an invite's stripped state. `None` for the
/// actions that hand no events, or that name a room the response lacks.
pub open spec fn action_events(r: BaseSyncResponse, a: SyncAction) -> Option<Vec<String>> {
    match a {
        SyncAction::HandleGlobalEvents(kind) => match kind {
            HandlerKind::GlobalAccountData => Some(r.account_data),
            HandlerKind::Presence => Some(r.presence),
            HandlerKind::ToDevice => Some(r.to_device),
            _ => None,
        },
        SyncAction::HandleRoomEvents(kind, m, i) => match (kind, m) {
            (HandlerKind::RoomAccountData, Membership::Joined) => if i < r.rooms.join@.len() {
                Some(r.rooms.join@[i as int].1.account_data)
            } else {
                None
            },
            (HandlerKind::RoomAccountData, Membership::Left) => if i < r.rooms.leave@.len() {
                Some(r.rooms.leave@[i as int].1.account_data)
            } else {
                None
            },
            (HandlerKind::EphemeralRoomData, Membership::Joined) => if i < r.rooms.join@.len() {
                Some(r.rooms.join@[i as int].1.ephemeral)
            } else {
                None
            },
            (HandlerKind::StrippedState, Membership::Invited) => if i < r.rooms.invite@.len() {
                Some(r.rooms.invite@[i as int].1.invite_state)
            } else {
                None
            },
            _ => None,
        },
        SyncAction::HandleStateEvents(m, i) => match m {
            Membership::Joined => if i < r.rooms.join@.len() {
                Some(r.rooms.join@[i as int].1.state)
            } else {
                None
            },
            Membership::Left => if i < r.rooms.leave@.len() {
                Some(r.rooms.leave@[i as int].1.state)
            } else {
                None
            },
            Membership::Invited => None,
        },
        SyncAction::HandleTimelineEvents(m, i) => match m {
            Membership::Joined => if i < r.rooms.join@.len() {
                Some(r.rooms.join@[i as int].1.timeline.events)
            } else {
                None
            },
            Membership::Left => if i < r.rooms.leave@.len() {
                Some(r.rooms.leave@[i as int].1.timeline.events)
            } else {
                None
            },
            Membership::Invited => None,
        },
        _ => None,
    }
}

/// The identifier of room `i` of membership `m`, if there is such a room.
pub fn room_id_of(r: &BaseSyncResponse, m: Membership, i: usize) -> (id: Option<&String>)
    ensures
        match id {
            Some(s) => room_id(*r, m, i as int) == Some(*s),
            None => room_id(*r, m, i as int) is None,
        },
        m == Membership::Joined && i < r.rooms.join@.len() ==> id == Some(&r.rooms.join@[i as int].0),
        m == Membership::Left && i < r.rooms.leave@.len() ==> id == Some(&r.rooms.leave@[i as int].0),
        m == Membership::Invited && i < r.rooms.invite@.len() ==> id == Some(
            &r.rooms.invite@[i as int].0,
        ),
{
    match m {
        Membership::Joined => if i < r.rooms.join.len() {
            Some(&r.rooms.join[i].0)
        } else {
            None
        },
        Membership::Left => if i < r.rooms.leave.len() {
            Some(&r.rooms.leave[i].0)
        } else {
            None
        },
        Membership::Invited => if i < r.rooms.invite.len() {
            Some(&r.rooms.invite[i].0)
        } else {
            None
        },
    }
}

/// The list of events that action `a` hands to the handlers (see
/// [`action_events`]).
pub fn events_for<'a>(r: &'a BaseSyncResponse, a: &SyncAction) -> (ev: Option<&'a Vec<String>>)
    ensures
        match ev {
            Some(v) => action_events(*r, *a) == Some(*v),
            None => action_events(*r, *a) is None,
        },
        *a == SyncAction::HandleGlobalEvents(HandlerKind::GlobalAccountData) ==> ev == Some(
            &r.account_data,
        ),
        *a == SyncAction::HandleGlobalEvents(HandlerKind::Presence) ==> ev == Some(&r.presence),
        *a == SyncAction::HandleGlobalEvents(HandlerKind::ToDevice) ==> ev == Some(&r.to_device),
        forall|i: usize|
            i < r.rooms.join@.len() ==> {
                &&& *a == SyncAction::HandleRoomEvents(HandlerKind::RoomAccountData, Membership::Joined, i)
                    ==> ev == Some(&r.rooms.join@[i as int].1.account_data)
                &&& *a == SyncAction::HandleStateEvents(Membership::Joined, i) ==> ev == Some(
                    &r.rooms.join@[i as int].1.state,
                )
                &&& *a == SyncAction::HandleTimelineEvents(Membership::Joined, i) ==> ev == Some(
                    &r.rooms.join@[i as int].1.timeline.events,
                )
                &&& *a == SyncAction::HandleRoomEvents(HandlerKind::EphemeralRoomData, Membership::Joined, i)
                    ==> ev == Some(&r.rooms.join@[i as int].1.ephemeral)
            },
        forall|i: usize|
            i < r.rooms.leave@.len() ==> {
                &&& *a == SyncAction::HandleRoomEvents(HandlerKind::RoomAccountData, Membership::Left, i)
                    ==> ev == Some(&r.rooms.leave@[i as int].1.account_data)
                &&& *a == SyncAction::HandleStateEvents(Membership::Left, i) ==> ev == Some(
                    &r.rooms.leave@[i as int].1.state,
                )
                &&& *a == SyncAction::HandleTimelineEvents(Membership::Left, i) ==> ev == Some(
                    &r.rooms.leave@[i as int].1.timeline.events,
                )
            },
        forall|i: usize|
            i < r.rooms.invite@.len() ==> (*a == SyncAction::HandleRoomEvents(
                HandlerKind::StrippedState,
                Membership::Invited,
                i,
            ) ==> ev == Some(&r.rooms.invite@[i as int].1.invite_state)),
{
    match *a {
        SyncAction::HandleGlobalEvents(kind) => match kind {
            HandlerKind::GlobalAccountData => Some(&r.account_data),
            HandlerKind::Presence => Some(&r.presence),
            HandlerKind::ToDevice => Some(&r.to_device),
            _ => None,
        },
        SyncAction::HandleRoomEvents(kind, m, i) => match (kind, m) {
            (HandlerKind::RoomAccountData, Membership::Joined) => if i < r.rooms.join.len() {
                Some(&r.rooms.join[i].1.account_data)
            } else {
                None
            },
            (HandlerKind::RoomAccountData, Membership::Left) => if i < r.rooms.leave.len() {
                Some(&r.rooms.leave[i].1.account_data)
            } else {
                None
            },
            (HandlerKind::EphemeralRoomData, Membership::Joined) => if i < r.rooms.join.len() {
                Some(&r.rooms.join[i].1.ephemeral)
            } else {
                None
            },
            (HandlerKind::StrippedState, Membership::Invited) => if i < r.rooms.invite.len() {
                Some(&r.rooms.invite[i].1.invite_state)
            } else {
                None
            },
            _ => None,
        },
        SyncAction::HandleStateEvents(m, i) => match m {
            Membership::Joined => if i < r.rooms.join.len() {
                Some(&r.rooms.join[i].1.state)
            } else {
                None
            },
            Membership::Left => if i < r.rooms.leave.len() {
                Some(&r.rooms.leave[i].1.state)
            } else {
                None
            },
            Membership::Invited => None,
        },
        SyncAction::HandleTimelineEvents(m, i) => match m {
            Membership::Joined => if i < r.rooms.join.len() {
                Some(&r.rooms.join[i].1.timeline.events)
            } else {
                None
            },
            Membership::Left => if i < r.rooms.leave.len() {
                Some(&r.rooms.leave[i].1.timeline.events)
            } else {
                None
            },
            Membership::Invited => None,
        },
        _ => None,
    }
}

/// Entry `k` of the notifications: a room and its notifications, if there is
/// such an entry.
pub fn notification_entry(r: &BaseSyncResponse, k: usize) -> (e: Option<
    &(String, Vec<Notification>),
>)
    ensures
        match e {
            Some(x) => k < r.notifications@.len() && *x == r.notifications@[k as int],
            None => k >= r.notifications@.len(),
        },
{
    if k < r.notifications.len() {
        Some(&r.notifications[k])
    } else {
        None
    }
}

/// Whether two lists of raw events hold the same texts.
pub open spec fn same_events(a: Vec<String>, b: Vec<String>) -> bool {
    a.deep_view() == b.deep_view()
}

/// Whether two timelines hold the same content.
pub open spec fn same_timeline(a: Timeline, b: Timeline) -> bool {
    &&& a.limited == b.limited
    &&& a.prev_batch.deep_view() == b.prev_batch.deep_view()
    &&& same_events(a.events, b.events)
}

/// Whether two updates of a joined room hold the same content.
pub open spec fn same_joined(a: JoinedRoom, b: JoinedRoom) -> bool {
    &&& a.unread_notifications == b.unread_notifications
    &&& same_timeline(a.timeline, b.timeline)
    &&& same_events(a.state, b.state)
    &&& same_events(a.account_data, b.account_data)
    &&& same_events(a.ephemeral, b.ephemeral)
}

/// Whether two updates of a left room hold the same content.
pub open spec fn same_left(a: LeftRoom, b: LeftRoom) -> bool {
    &&& same_timeline(a.timeline, b.timeline)
    &&& same_events(a.state, b.state)
    &&& same_events(a.account_data, b.account_data)
}

/// Whether two updates of an invite hold the same content.
pub open spec fn same_invited(a: InvitedRoom, b: InvitedRoom) -> bool {
    same_events(a.invite_state, b.invite_state)
}

fn copy_events(v: &Vec<String>) -> (c: Vec<String>)
    ensures
        same_events(c, *v),
{
    let c = v.clone();
    proof {
        assert forall|i: int| 0 <= i < c.len() implies c@[i]@ == v@[i]@ by {
            assert(vstd::pervasive::cloned::<String>(v[i], c[i]));
        }
        assert(c.deep_view() =~= v.deep_view());
    }
    c
}

fn copy_timeline(t: &Timeline) -> (c: Timeline)
    ensures
        same_timeline(c, *t),
{
    let prev_batch = match &t.prev_batch {
        Some(p) => Some(p.clone()),
        None => None,
    };
    Timeline { limited: t.limited, prev_batch, events: copy_events(&t.events) }
}

fn copy_joined(j: &JoinedRoom) -> (c: JoinedRoom)
    ensures
        same_joined(c, *j),
{
    JoinedRoom {
        unread_notifications: crate::sync::UnreadNotificationsCount {
            highlight_count: j.unread_notifications.highlight_count,
            notification_count: j.unread_notifications.notification_count,
        },
        timeline: copy_timeline(&j.timeline),
        state: copy_events(&j.state),
        account_data: copy_events(&j.account_data),
        ephemeral: copy_events(&j.ephemeral),
    }
}

fn copy_left(l: &LeftRoom) -> (c: LeftRoom)
    ensures
        same_left(c, *l),
{
    LeftRoom {
        timeline: copy_timeline(&l.timeline),
        state: copy_events(&l.state),
        account_data: copy_events(&l.account_data),
    }
}

/// Whether `u` is the update of room `i` of membership `m` with handle
/// `room`: the variant of its membership, that handle, and the same content
/// as the room's entry of the response.
pub open spec fn is_update_of<R>(
    r: BaseSyncResponse,
    m: Membership,
    i: int,
    room: R,
    u: RoomUpdate<R>,
) -> bool {
    match u {
        RoomUpdate::Joined { room: x, updates } => m == Membership::Joined && 0 <= i
            < r.rooms.join@.len() && x == room && same_joined(updates, r.rooms.join@[i].1),
        RoomUpdate::Left { room: x, updates } => m == Membership::Left && 0 <= i
            < r.rooms.leave@.len() && x == room && same_left(updates, r.rooms.leave@[i].1),
        RoomUpdate::Invited { room: x, updates } => m == Membership::Invited && 0 <= i
            < r.rooms.invite@.len() && x == room && same_invited(updates, r.rooms.invite@[i].1),
    }
}

/// The update sent to the subscribers of room `i` of membership `m`: the
/// variant of its membership, the room handle `room`, and the room's entry of
/// the response. `None` if the response has no such room.
pub fn room_update<R>(r: &BaseSyncResponse, m: Membership, i: usize, room: R) -> (u: Option<
    RoomUpdate<R>,
>)
    ensures
        match u {
            None => i >= room_count(outline_of(*r), m),
            Some(x) => is_update_of(*r, m, i as int, room, x),
        },
        m == Membership::Joined && i < r.rooms.join@.len() ==> (u matches Some(
            RoomUpdate::Joined { room: x, updates },
        ) && x == room && updates.timeline.limited == r.rooms.join@[i as int].1.timeline.limited
            && updates.state.deep_view() == r.rooms.join@[i as int].1.state.deep_view()
            && updates.timeline.events.deep_view()
            == r.rooms.join@[i as int].1.timeline.events.deep_view()),
        m == Membership::Left && i < r.rooms.leave@.len() ==> (u matches Some(
            RoomUpdate::Left { room: x, updates },
        ) && x == room && updates.timeline.limited == r.rooms.leave@[i as int].1.timeline.limited
            && updates.state.deep_view() == r.rooms.leave@[i as int].1.state.deep_view()
            && updates.timeline.events.deep_view()
            == r.rooms.leave@[i as int].1.timeline.events.deep_view()),
        m == Membership::Invited && i < r.rooms.invite@.len() ==> (u matches Some(
            RoomUpdate::Invited { room: x, updates },
        ) && x == room && updates.invite_state.deep_view()
            == r.rooms.invite@[i as int].1.invite_state.deep_view()),
{
    match m {
        Membership::Joined => if i < r.rooms.join.len() {
            Some(RoomUpdate::Joined { room, updates: copy_joined(&r.rooms.join[i].1) })
        } else {
            None
        },
        Membership::Left => if i < r.rooms.leave.len() {
            Some(RoomUpdate::Left { room, updates: copy_left(&r.rooms.leave[i].1) })
        } else {
            None
        },
        Membership::Invited => if i < r.rooms.invite.len() {
            Some(
                RoomUpdate::Invited {
                    room,
                    updates: InvitedRoom { invite_state: copy_events(&r.rooms.invite[i].1.invite_state) },
                },
            )
        } else {
            None
        },
    }
}

/// Sends the update of room `i` of membership `m`, with handle `room`, on
/// the room's update channel (see [`send_room_update`]): when the channel is
/// kept, the update handed to it is the room's update (see
/// [`is_update_of`]); when it has no receiver left, nothing is built.
pub fn send_room_update_of<R>(
    tx: &Sender<RoomUpdate<R>>,
    r: &BaseSyncResponse,
    m: Membership,
    i: usize,
    room: R,
) -> (keep: (bool, Ghost<(usize, Option<RoomUpdate<R>>)>))
    requires
        i < room_count(outline_of(*r), m),
    ensures
        keep.0 == (keep.1@.0 != 0),
        keep.0 ==> keep.1@.1 is Some && is_update_of(*r, m, i as int, room, keep.1@.1->0),
        !keep.0 ==> keep.1@.1 is None,
{
    let ghost handle = room;
    let make_msg = move || -> (u: RoomUpdate<R>)
        requires
            i < room_count(outline_of(*r), m),
        ensures
            is_update_of(*r, m, i as int, handle, u),
        {
            match room_update(r, m, i, room) {
                Some(u) => u,
                None => {
                    proof {
                        assert(false);
                    }
                    vstd::pervasive::unreached()
                },
            }
        };
    send_room_update(tx, make_msg)
}

/// Every action that the dispatcher of a response answers names data the
/// response has: each handler action has its list of events, each room
/// action a room of the response, and each notification action an entry of
/// the notifications.
pub proof fn lemma_actions_name_response_data(r: BaseSyncResponse, s: Stage)
    requires
        stage_wf(outline_of(r), s),
    ensures
        runs_handlers(s) ==> action_events(r, issued(s)) is Some,
        match s {
            Stage::Gap(m, i) | Stage::Lookup(m, i) | Stage::Update(m, i) | Stage::Handler(m, i, _) => room_id(
                r,
                m,
                i as int,
            ) is Some,
            Stage::NotificationLookup(_, _, k) | Stage::NotificationQueue(_, _, k) => k
                < r.notifications@.len(),
            _ => true,
        },
{
}

/// In a response whose maps are in key order, the rooms of each membership,
/// and the notification entries, come in strictly ascending order of their
/// identifiers, each once. Since the dispatcher takes rooms and entries by
/// ascending position (see `lemma_dispatch_without_failures`), it handles
/// them in ascending order of their identifiers.
pub proof fn lemma_rooms_in_id_order(r: BaseSyncResponse, m: Membership, i: int, j: int)
    requires
        response_in_order(r),
        0 <= i < j < room_count(outline_of(r), m),
    ensures
        room_id(r, m, i) is Some,
        room_id(r, m, j) is Some,
        id_less(room_id(r, m, i)->0@, room_id(r, m, j)->0@),
{
    match m {
        Membership::Joined => assert(id_less(r.rooms.join@[i].0@, r.rooms.join@[j].0@)),
        Membership::Left => assert(id_less(r.rooms.leave@[i].0@, r.rooms.leave@[j].0@)),
        Membership::Invited => assert(id_less(r.rooms.invite@[i].0@, r.rooms.invite@[j].0@)),
    }
}

/// In a response whose maps are in key order, the notification entries come
/// in strictly ascending order of their rooms' identifiers, each once.
pub proof fn lemma_notifications_in_id_order(r: BaseSyncResponse, k: int, l: int)
    requires
        response_in_order(r),
        0 <= k < l < r.notifications@.len(),
    ensures
        id_less(r.notifications@[k].0@, r.notifications@[l].0@),
{
}

/// A room's dispatch starts with the signal of a sync gap exactly when its
/// timeline in the response is limited: for a joined or left room, the
/// first action is `NotifySyncGap` if `timeline.limited` holds and its lookup
/// otherwise; an invite, which has no timeline, starts with its lookup.
pub proof fn lemma_gap_exactly_for_limited_timelines(r: BaseSyncResponse, m: Membership, i: usize)
    requires
        i < room_count(outline_of(r), m),
    ensures
        m == Membership::Joined ==> issued(room_start(outline_of(r), m, i)) == (if r.rooms.join@[i as int].1.timeline.limited {
            SyncAction::NotifySyncGap(m, i)
        } else {
            SyncAction::LookupRoom(m, i)
        }),
        m == Membership::Left ==> issued(room_start(outline_of(r), m, i)) == (if r.rooms.leave@[i as int].1.timeline.limited {
            SyncAction::NotifySyncGap(m, i)
        } else {
            SyncAction::LookupRoom(m, i)
        }),
        m == Membership::Invited ==> issued(room_start(outline_of(r), m, i)) == SyncAction::LookupRoom(m, i),
{
}

/// Each handler action of a room hands over that room's own list of its
/// kind: the account data, state, timeline and ephemeral events of joined
/// room `i`, the account data, state and timeline of left room `i`, and the
/// stripped state of invite `i`.
pub proof fn lemma_room_lists(r: BaseSyncResponse, i: usize)
    ensures
        i < r.rooms.join@.len() ==> {
            let j = r.rooms.join@[i as int].1;
            &&& action_events(r, SyncAction::HandleRoomEvents(HandlerKind::RoomAccountData, Membership::Joined, i))
                == Some(j.account_data)
            &&& action_events(r, SyncAction::HandleStateEvents(Membership::Joined, i)) == Some(j.state)
            &&& action_events(r, SyncAction::HandleTimelineEvents(Membership::Joined, i)) == Some(
                j.timeline.events,
            )
            &&& action_events(r, SyncAction::HandleRoomEvents(HandlerKind::EphemeralRoomData, Membership::Joined, i))
                == Some(j.ephemeral)
        },
        i < r.rooms.leave@.len() ==> {
            let l = r.rooms.leave@[i as int].1;
            &&& action_events(r, SyncAction::HandleRoomEvents(HandlerKind::RoomAccountData, Membership::Left, i))
                == Some(l.account_data)
            &&& action_events(r, SyncAction::HandleStateEvents(Membership::Left, i)) == Some(l.state)
            &&& action_events(r, SyncAction::HandleTimelineEvents(Membership::Left, i)) == Some(
                l.timeline.events,
            )
        },
        i < r.rooms.invite@.len() ==> action_events(
            r,
            SyncAction::HandleRoomEvents(HandlerKind::StrippedState, Membership::Invited, i),
        ) == Some(r.rooms.invite@[i as int].1.invite_state),
        action_events(r, SyncAction::HandleGlobalEvents(HandlerKind::GlobalAccountData)) == Some(
            r.account_data,
        ),
        action_events(r, SyncAction::HandleGlobalEvents(HandlerKind::Presence)) == Some(r.presence),
        action_events(r, SyncAction::HandleGlobalEvents(HandlerKind::ToDevice)) == Some(r.to_device),
{
}

} // verus!
