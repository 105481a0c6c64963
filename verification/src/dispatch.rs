//! The order in which the events of a processed `/sync` response are handed
//! to the event handlers, the room subscribers and the notification handlers.
//!
//! The dispatcher decides; its caller does the work. Each call of
//! [`SyncDispatcher::next`] takes the outcome of the previous action and
//! answers the next action. The caller performs it (runs the handlers of a
//! list of events, looks a room up, sends a room update, ...) and reports its
//! outcome, until the dispatcher answers [`SyncAction::Finish`].
use crate::key_order::response_in_order;
use crate::sync::BaseSyncResponse;
use vstd::prelude::*;

verus! {

/// The relation of the user to a room in a sync response.
#[derive(Clone, Copy, Debug, PartialEq, Eq, Structural)]
pub enum Membership {
    /// A room the user is currently in.
    Joined,
    /// A room the user is no longer in.
    Left,
    /// A room the user is invited to.
    Invited,
}

/// The kinds of event handlers that a list of events is handed to.
#[derive(Clone, Copy, Debug, PartialEq, Eq, Structural)]
pub enum HandlerKind {
    /// Global account data events.
    GlobalAccountData,
    /// Presence events.
    Presence,
    /// To-device events.
    ToDevice,
    /// Account data events of a room.
    RoomAccountData,
    /// Ephemeral events of a room.
    EphemeralRoomData,
    /// Stripped state events of a room the user is invited to.
    StrippedState,
}

/// What the caller of the dispatcher does next.
///
/// Rooms are named by their membership and their position in the response's
/// list of rooms of that membership; rooms with notifications by their
/// position in the response's list of notifications.
#[derive(Clone, Copy, Debug, PartialEq, Eq, Structural)]
pub enum SyncAction {
    /// Hand the response's events of this global kind to their handlers.
    HandleGlobalEvents(HandlerKind),
    /// Tell the subscribers of the room that its timeline has a gap.
    NotifySyncGap(Membership, usize),
    /// Look the room up in the client.
    LookupRoom(Membership, usize),
    /// Send the room's updates on its update channel.
    SendRoomUpdate(Membership, usize),
    /// Hand the room's events of this kind to their handlers.
    HandleRoomEvents(HandlerKind, Membership, usize),
    /// Hand the room's state events to their handlers.
    HandleStateEvents(Membership, usize),
    /// Hand the room's timeline events to their handlers.
    HandleTimelineEvents(Membership, usize),
    /// Fetch the registered notification handlers.
    FetchNotificationHandlers,
    /// Look up the room of this entry of the notifications.
    LookupNotificationRoom(usize),
    /// Prepare a run of this notification handler on each notification of
    /// this entry of the notifications, after those prepared before.
    QueueNotifications {
        /// The position of the handler among the fetched ones.
        handler: usize,
        /// The position of the entry among the notifications.
        room: usize,
    },
    /// Run the prepared notification handler runs, in the order prepared.
    RunNotificationHandlers,
    /// Stop: `true` when all went well, `false` to return the error of the
    /// handlers that failed last.
    Finish(bool),
}

/// The outcome of the last action, as the caller reports it.
#[derive(Clone, Copy, Debug, PartialEq, Eq, Structural)]
pub enum SyncEvent {
    /// The action completed (handlers that ran all succeeded).
    Completed,
    /// A handler that the action ran failed.
    Failed,
    /// The looked-up room was found (`true`) or not (`false`).
    RoomFound(bool),
    /// This many notification handlers were fetched.
    HandlersFetched(usize),
}

/// Where the dispatcher stands: the action it answered last, awaiting that
/// action's outcome.
#[derive(Clone, Copy, Debug, PartialEq, Eq, Structural)]
pub enum Stage {
    /// Handing the global events of the kind at this position.
    Global(usize),
    /// Notifying the sync gap of a room.
    Gap(Membership, usize),
    /// Looking up a room.
    Lookup(Membership, usize),
    /// Sending a room update.
    Update(Membership, usize),
    /// Handing the events of a room to the handlers, at this step.
    Handler(Membership, usize, usize),
    /// Fetching the notification handlers.
    FetchHandlers,
    /// Looking up the room of a notification entry, for a handler:
    /// (handler, number of handlers, entry).
    NotificationLookup(usize, usize, usize),
    /// Preparing a handler's runs on an entry's notifications:
    /// (handler, number of handlers, entry).
    NotificationQueue(usize, usize, usize),
    /// Running the prepared notification handler runs.
    RunNotifications,
    /// Done, successfully or not.
    Finished(bool),
}

/// What the dispatcher needs to know of a response.
pub struct SyncOutline {
    /// For each joined room, in order, whether its timeline is limited.
    pub joined: Vec<bool>,
    /// For each left room, in order, whether its timeline is limited.
    pub left: Vec<bool>,
    /// The number of rooms the user is invited to.
    pub invited: usize,
    /// The number of rooms with new notifications.
    pub notification_rooms: usize,
}

/// The mathematical value of a [`SyncOutline`].
pub struct OutlineView {
    /// For each joined room, in order, whether its timeline is limited.
    pub joined: Seq<bool>,
    /// For each left room, in order, whether its timeline is limited.
    pub left: Seq<bool>,
    /// The number of rooms the user is invited to.
    pub invited: nat,
    /// The number of rooms with new notifications.
    pub notification_rooms: nat,
}

impl View for SyncOutline {
    type V = OutlineView;

    open spec fn view(&self) -> OutlineView {
        OutlineView {
            joined: self.joined@,
            left: self.left@,
            invited: self.invited as nat,
            notification_rooms: self.notification_rooms as nat,
        }
    }
}

/// The outline of a response: the limited flags of the joined and left rooms
/// in order, and how many invited rooms and rooms with notifications it has.
pub open spec fn outline_of(r: BaseSyncResponse) -> OutlineView {
    OutlineView {
        joined: r.rooms.join@.map_values(|e: (String, crate::sync::JoinedRoom)| e.1.timeline.limited),
        left: r.rooms.leave@.map_values(|e: (String, crate::sync::LeftRoom)| e.1.timeline.limited),
        invited: r.rooms.invite@.len(),
        notification_rooms: r.notifications@.len(),
    }
}

/// The number of rooms of a membership.
pub open spec fn room_count(o: OutlineView, m: Membership) -> nat {
    match m {
        Membership::Joined => o.joined.len(),
        Membership::Left => o.left.len(),
        Membership::Invited => o.invited,
    }
}

/// Whether the timeline of a room is limited; invites have no timeline.
pub open spec fn is_limited(o: OutlineView, m: Membership, i: int) -> bool {
    match m {
        Membership::Joined => o.joined[i],
        Membership::Left => o.left[i],
        Membership::Invited => false,
    }
}

/// How many lists of a room's events go to handlers.
pub open spec fn handler_steps(m: Membership) -> nat {
    match m {
        Membership::Joined => 4,
        Membership::Left => 3,
        Membership::Invited => 1,
    }
}

/// The global kinds, in the order they are handled.
pub open spec fn global_kind(g: int) -> HandlerKind {
    if g == 0 {
        HandlerKind::GlobalAccountData
    } else if g == 1 {
        HandlerKind::Presence
    } else {
        HandlerKind::ToDevice
    }
}

/// The lists of a room's events, in the order they are handled: account
/// data, state, timeline, then (joined rooms) ephemeral events, since read
/// receipts among them can refer to timeline events of the same response. An
/// invite has only its stripped state.
pub open spec fn room_handler_action(m: Membership, i: usize, j: int) -> SyncAction {
    match m {
        Membership::Invited => SyncAction::HandleRoomEvents(HandlerKind::StrippedState, m, i),
        _ => if j == 0 {
            SyncAction::HandleRoomEvents(HandlerKind::RoomAccountData, m, i)
        } else if j == 1 {
            SyncAction::HandleStateEvents(m, i)
        } else if j == 2 {
            SyncAction::HandleTimelineEvents(m, i)
        } else {
            SyncAction::HandleRoomEvents(HandlerKind::EphemeralRoomData, m, i)
        },
    }
}

/// The stage in which the dispatch of a room starts: its gap notification
/// when its timeline is limited, else its lookup.
pub open spec fn room_start(o: OutlineView, m: Membership, i: usize) -> Stage {
    if is_limited(o, m, i as int) {
        Stage::Gap(m, i)
    } else {
        Stage::Lookup(m, i)
    }
}

/// The stage after the last room of a membership: the first room of the next
/// memberships that has rooms, else the fetch of the notification handlers.
pub open spec fn after_rooms(o: OutlineView, m: Membership) -> Stage {
    match m {
        Membership::Joined => if room_count(o, Membership::Left) > 0 {
            room_start(o, Membership::Left, 0)
        } else if room_count(o, Membership::Invited) > 0 {
            room_start(o, Membership::Invited, 0)
        } else {
            Stage::FetchHandlers
        },
        Membership::Left => if room_count(o, Membership::Invited) > 0 {
            room_start(o, Membership::Invited, 0)
        } else {
            Stage::FetchHandlers
        },
        Membership::Invited => Stage::FetchHandlers,
    }
}

/// The stage in which the dispatch goes on at room `i` of membership `m`:
/// that room if there is one, else what follows the rooms of `m`.
pub open spec fn enter_room(o: OutlineView, m: Membership, i: usize) -> Stage {
    if i < room_count(o, m) {
        room_start(o, m, i)
    } else {
        after_rooms(o, m)
    }
}

/// The stage in which the notification phase goes on at entry `k` for
/// handler `h` of `n`: the lookup of that entry, else the first entry for the
/// next handler, else the run of what was prepared.
pub open spec fn notification_next(o: OutlineView, h: usize, n: usize, k: usize) -> Stage {
    if k < o.notification_rooms {
        Stage::NotificationLookup(h, n, k)
    } else if h + 1 < n {
        Stage::NotificationLookup((h + 1) as usize, n, 0)
    } else {
        Stage::RunNotifications
    }
}

/// The action that the dispatcher answers when it enters a stage.
pub open spec fn issued(s: Stage) -> SyncAction {
    match s {
        Stage::Global(g) => SyncAction::HandleGlobalEvents(global_kind(g as int)),
        Stage::Gap(m, i) => SyncAction::NotifySyncGap(m, i),
        Stage::Lookup(m, i) => SyncAction::LookupRoom(m, i),
        Stage::Update(m, i) => SyncAction::SendRoomUpdate(m, i),
        Stage::Handler(m, i, j) => room_handler_action(m, i, j as int),
        Stage::FetchHandlers => SyncAction::FetchNotificationHandlers,
        Stage::NotificationLookup(_h, _n, k) => SyncAction::LookupNotificationRoom(k),
        Stage::NotificationQueue(h, _n, k) => SyncAction::QueueNotifications { handler: h, room: k },
        Stage::RunNotifications => SyncAction::RunNotificationHandlers,
        Stage::Finished(ok) => SyncAction::Finish(ok),
    }
}

/// Whether a stage runs event handlers, which can fail.
pub open spec fn runs_handlers(s: Stage) -> bool {
    s is Global || s is Handler
}

/// Which outcomes a stage awaits.
pub open spec fn accepts(s: Stage, e: SyncEvent) -> bool {
    match s {
        Stage::Global(_) | Stage::Handler(..) => e is Completed || e is Failed,
        Stage::Gap(..) | Stage::Update(..) | Stage::NotificationQueue(..)
        | Stage::RunNotifications => e is Completed,
        Stage::Lookup(..) | Stage::NotificationLookup(..) => e is RoomFound,
        Stage::FetchHandlers => e is HandlersFetched,
        Stage::Finished(_) => false,
    }
}

/// The stage that an accepted outcome leads to.
pub open spec fn next_stage(o: OutlineView, s: Stage, e: SyncEvent) -> Stage {
    if e is Failed {
        Stage::Finished(false)
    } else {
        match s {
            Stage::Global(g) => if g < 2 {
                Stage::Global((g + 1) as usize)
            } else {
                enter_room(o, Membership::Joined, 0)
            },
            Stage::Gap(m, i) => Stage::Lookup(m, i),
            Stage::Lookup(m, i) => if e == SyncEvent::RoomFound(true) {
                Stage::Update(m, i)
            } else {
                enter_room(o, m, (i + 1) as usize)
            },
            Stage::Update(m, i) => Stage::Handler(m, i, 0),
            Stage::Handler(m, i, j) => if j + 1 < handler_steps(m) {
                Stage::Handler(m, i, (j + 1) as usize)
            } else {
                enter_room(o, m, (i + 1) as usize)
            },
            Stage::FetchHandlers => match e {
                SyncEvent::HandlersFetched(n) => if n > 0 && o.notification_rooms > 0 {
                    Stage::NotificationLookup(0, n, 0)
                } else {
                    Stage::RunNotifications
                },
                _ => s,
            },
            Stage::NotificationLookup(h, n, k) => if e == SyncEvent::RoomFound(true) {
                Stage::NotificationQueue(h, n, k)
            } else {
                notification_next(o, h, n, (k + 1) as usize)
            },
            Stage::NotificationQueue(h, n, k) => notification_next(o, h, n, (k + 1) as usize),
            Stage::RunNotifications => Stage::Finished(true),
            Stage::Finished(_) => s,
        }
    }
}

/// The stages that can be reached for an outline: every room and entry
/// named exists.
pub open spec fn stage_wf(o: OutlineView, s: Stage) -> bool {
    match s {
        Stage::Global(g) => g < 3,
        Stage::Gap(m, i) => i < room_count(o, m) && is_limited(o, m, i as int),
        Stage::Lookup(m, i) | Stage::Update(m, i) => i < room_count(o, m),
        Stage::Handler(m, i, j) => i < room_count(o, m) && j < handler_steps(m),
        Stage::NotificationLookup(h, n, k) | Stage::NotificationQueue(h, n, k) => h < n && k
            < o.notification_rooms,
        _ => true,
    }
}

/// Steps through the dispatch of one processed `/sync` response.
pub struct SyncDispatcher {
    outline: SyncOutline,
    stage: Stage,
}

impl SyncDispatcher {
    #[verifier::type_invariant]
    spec fn inv(self) -> bool {
        stage_wf(self.outline@, self.stage)
    }

    /// The outline of the response being dispatched.
    pub closed spec fn outline(self) -> OutlineView {
        self.outline@
    }

    /// The stage the dispatcher stands in.
    pub closed spec fn stage(self) -> Stage {
        self.stage
    }
}

/// The action that the dispatcher answers when it enters stage `s`.
fn issue(s: Stage) -> (a: SyncAction)
    ensures
        a == issued(s),
{
    match s {
        Stage::Global(g) => {
            let kind = if g == 0 {
                HandlerKind::GlobalAccountData
            } else if g == 1 {
                HandlerKind::Presence
            } else {
                HandlerKind::ToDevice
            };
            SyncAction::HandleGlobalEvents(kind)
        },
        Stage::Gap(m, i) => SyncAction::NotifySyncGap(m, i),
        Stage::Lookup(m, i) => SyncAction::LookupRoom(m, i),
        Stage::Update(m, i) => SyncAction::SendRoomUpdate(m, i),
        Stage::Handler(m, i, j) => match m {
            Membership::Invited => SyncAction::HandleRoomEvents(HandlerKind::StrippedState, m, i),
            _ => if j == 0 {
                SyncAction::HandleRoomEvents(HandlerKind::RoomAccountData, m, i)
            } else if j == 1 {
                SyncAction::HandleStateEvents(m, i)
            } else if j == 2 {
                SyncAction::HandleTimelineEvents(m, i)
            } else {
                SyncAction::HandleRoomEvents(HandlerKind::EphemeralRoomData, m, i)
            },
        },
        Stage::FetchHandlers => SyncAction::FetchNotificationHandlers,
        Stage::NotificationLookup(_h, _n, k) => SyncAction::LookupNotificationRoom(k),
        Stage::NotificationQueue(h, _n, k) => SyncAction::QueueNotifications { handler: h, room: k },
        Stage::RunNotifications => SyncAction::RunNotificationHandlers,
        Stage::Finished(ok) => SyncAction::Finish(ok),
    }
}

fn handler_steps_exec(m: Membership) -> (n: usize)
    ensures
        n == handler_steps(m),
{
    match m {
        Membership::Joined => 4,
        Membership::Left => 3,
        Membership::Invited => 1,
    }
}

impl SyncOutline {
    /// The outline of a response: the limited flags of its joined and left
    /// rooms, in order, and how many invites and notification entries it has.
    pub fn of(response: &BaseSyncResponse) -> (o: SyncOutline)
        ensures
            o@ == outline_of(*response),
            o.joined@.len() == response.rooms.join@.len(),
            forall|i: int|
                0 <= i < o.joined@.len() ==> #[trigger] o.joined@[i]
                    == response.rooms.join@[i].1.timeline.limited,
            o.left@.len() == response.rooms.leave@.len(),
            forall|i: int|
                0 <= i < o.left@.len() ==> #[trigger] o.left@[i]
                    == response.rooms.leave@[i].1.timeline.limited,
            o.invited == response.rooms.invite@.len(),
            o.notification_rooms == response.notifications@.len(),
    {
        let mut joined: Vec<bool> = Vec::new();
        let n = response.rooms.join.len();
        for idx in 0..n
            invariant
                n == response.rooms.join@.len(),
                joined@ == response.rooms.join@.take(idx as int).map_values(
                    |e: (String, crate::sync::JoinedRoom)| e.1.timeline.limited,
                ),
        {
            joined.push(response.rooms.join[idx].1.timeline.limited);
            assert(response.rooms.join@.take(idx + 1) == response.rooms.join@.take(idx as int).push(
                response.rooms.join@[idx as int],
            ));
        }
        assert(response.rooms.join@.take(n as int) == response.rooms.join@);
        let mut left: Vec<bool> = Vec::new();
        let n = response.rooms.leave.len();
        for idx in 0..n
            invariant
                n == response.rooms.leave@.len(),
                left@ == response.rooms.leave@.take(idx as int).map_values(
                    |e: (String, crate::sync::LeftRoom)| e.1.timeline.limited,
                ),
        {
            left.push(response.rooms.leave[idx].1.timeline.limited);
            assert(response.rooms.leave@.take(idx + 1) == response.rooms.leave@.take(idx as int).push(
                response.rooms.leave@[idx as int],
            ));
        }
        assert(response.rooms.leave@.take(n as int) == response.rooms.leave@);
        SyncOutline {
            joined,
            left,
            invited: response.rooms.invite.len(),
            notification_rooms: response.notifications.len(),
        }
    }

    proof fn lemma_counts_fit(&self)
        ensures
            room_count(self@, Membership::Joined) <= usize::MAX,
            room_count(self@, Membership::Left) <= usize::MAX,
            room_count(self@, Membership::Invited) <= usize::MAX,
    {
        assert(self.joined@.len() == self.joined.len());
        assert(self.left@.len() == self.left.len());
    }

    fn room_count(&self, m: Membership) -> (n: usize)
        ensures
            n == room_count(self@, m),
    {
        match m {
            Membership::Joined => self.joined.len(),
            Membership::Left => self.left.len(),
            Membership::Invited => self.invited,
        }
    }

    fn room_start(&self, m: Membership, i: usize) -> (s: Stage)
        requires
            i < room_count(self@, m),
        ensures
            s == room_start(self@, m, i),
            stage_wf(self@, s),
    {
        let limited = match m {
            Membership::Joined => self.joined[i],
            Membership::Left => self.left[i],
            Membership::Invited => false,
        };
        if limited {
            Stage::Gap(m, i)
        } else {
            Stage::Lookup(m, i)
        }
    }

    fn enter_room(&self, m: Membership, i: usize) -> (s: Stage)
        ensures
            s == enter_room(self@, m, i),
            stage_wf(self@, s),
    {
        if i < self.room_count(m) {
            self.room_start(m, i)
        } else {
            match m {
                Membership::Joined => if self.left.len() > 0 {
                    self.room_start(Membership::Left, 0)
                } else if self.invited > 0 {
                    self.room_start(Membership::Invited, 0)
                } else {
                    Stage::FetchHandlers
                },
                Membership::Left => if self.invited > 0 {
                    self.room_start(Membership::Invited, 0)
                } else {
                    Stage::FetchHandlers
                },
                Membership::Invited => Stage::FetchHandlers,
            }
        }
    }

    fn notification_next(&self, h: usize, n: usize, k: usize) -> (s: Stage)
        requires
            h < n,
            0 < self@.notification_rooms,
        ensures
            s == notification_next(self@, h, n, k),
            stage_wf(self@, s),
    {
        if k < self.notification_rooms {
            Stage::NotificationLookup(h, n, k)
        } else if h + 1 < n {
            Stage::NotificationLookup(h + 1, n, 0)
        } else {
            Stage::RunNotifications
        }
    }
}

impl SyncDispatcher {
    /// Starts the dispatch of a response with the given outline, answering
    /// the first action: the handling of the global account data events.
    pub fn start(outline: SyncOutline) -> (r: (SyncDispatcher, SyncAction))
        ensures
            r.0.outline() == outline@,
            r.0.stage() == Stage::Global(0),
            r.1 == issued(Stage::Global(0)),
    {
        let d = SyncDispatcher { outline, stage: Stage::Global(0) };
        (d, SyncAction::HandleGlobalEvents(HandlerKind::GlobalAccountData))
    }

    /// Starts the dispatch of a processed response, answering the first
    /// action.
    pub fn for_response(response: &BaseSyncResponse) -> (r: (SyncDispatcher, SyncAction))
        requires
            response_in_order(*response),
        ensures
            r.0.outline() == outline_of(*response),
            r.0.stage() == Stage::Global(0),
            r.1 == issued(Stage::Global(0)),
    {
        SyncDispatcher::start(SyncOutline::of(response))
    }

    /// Whether the dispatcher awaits an outcome of this sort now.
    pub fn accepts(&self, e: &SyncEvent) -> (b: bool)
        ensures
            b == accepts(self.stage(), *e),
    {
        match self.stage {
            Stage::Global(_) | Stage::Handler(..) => match e {
                SyncEvent::Completed | SyncEvent::Failed => true,
                _ => false,
            },
            Stage::Gap(..) | Stage::Update(..) | Stage::NotificationQueue(..)
            | Stage::RunNotifications => match e {
                SyncEvent::Completed => true,
                _ => false,
            },
            Stage::Lookup(..) | Stage::NotificationLookup(..) => match e {
                SyncEvent::RoomFound(_) => true,
                _ => false,
            },
            Stage::FetchHandlers => match e {
                SyncEvent::HandlersFetched(_) => true,
                _ => false,
            },
            Stage::Finished(_) => false,
        }
    }

    /// Whether the dispatch is over.
    pub fn is_finished(&self) -> (b: bool)
        ensures
            b == self.stage() is Finished,
    {
        match self.stage {
            Stage::Finished(_) => true,
            _ => false,
        }
    }

    /// Takes the outcome of the last action and answers the next one.
    pub fn next(&mut self, e: SyncEvent) -> (a: SyncAction)
        requires
            accepts(old(self).stage(), e),
        ensures
            final(self).outline() == old(self).outline(),
            final(self).stage() == next_stage(old(self).outline(), old(self).stage(), e),
            a == issued(final(self).stage()),
    {
        proof {
            use_type_invariant(&*self);
        }
        let s = match e {
            SyncEvent::Failed => Stage::Finished(false),
            _ => match self.stage {
                Stage::Global(g) => if g < 2 {
                    Stage::Global(g + 1)
                } else {
                    self.outline.enter_room(Membership::Joined, 0)
                },
                Stage::Gap(m, i) => Stage::Lookup(m, i),
                Stage::Lookup(m, i) => match e {
                    SyncEvent::RoomFound(true) => Stage::Update(m, i),
                    _ => {
                        proof {
                            self.outline.lemma_counts_fit();
                        }
                        self.outline.enter_room(m, i + 1)
                    },
                },
                Stage::Update(m, i) => Stage::Handler(m, i, 0),
                Stage::Handler(m, i, j) => if j + 1 < handler_steps_exec(m) {
                    Stage::Handler(m, i, j + 1)
                } else {
                    proof {
                        self.outline.lemma_counts_fit();
                    }
                    self.outline.enter_room(m, i + 1)
                },
                Stage::FetchHandlers => match e {
                    SyncEvent::HandlersFetched(n) => if n > 0 && self.outline.notification_rooms
                        > 0 {
                        Stage::NotificationLookup(0, n, 0)
                    } else {
                        Stage::RunNotifications
                    },
                    _ => Stage::RunNotifications,
                },
                Stage::NotificationLookup(h, n, k) => match e {
                    SyncEvent::RoomFound(true) => Stage::NotificationQueue(h, n, k),
                    _ => self.outline.notification_next(h, n, k + 1),
                },
                Stage::NotificationQueue(h, n, k) => self.outline.notification_next(h, n, k + 1),
                Stage::RunNotifications => Stage::Finished(true),
                Stage::Finished(ok) => Stage::Finished(ok),
            },
        };
        self.stage = s;
        issue(s)
    }
}

} // verus!
