//! The SDK's representation of the result of a `/sync` request.
//!
//! Events are held as their raw JSON text, identifiers as their string form,
//! and maps keyed by an identifier as the list of their entries in key order.
use vstd::prelude::*;

verus! {

/// Counts of unread notifications in a room.
#[derive(Clone, Default, Debug)]
pub struct UnreadNotificationsCount {
    /// The number of unread notifications with the highlight flag set.
    pub highlight_count: u64,
    /// The total number of unread notifications.
    pub notification_count: u64,
}

/// The timeline of a room in a sync response.
#[derive(Clone, Default, Debug)]
pub struct Timeline {
    /// True if the number of events returned was limited by the filter, so
    /// that earlier events are missing: there is a gap before `events`.
    pub limited: bool,
    /// A token to paginate backwards from the start of `events`.
    pub prev_batch: Option<String>,
    /// The events of the timeline, as raw JSON.
    pub events: Vec<String>,
}

/// Updates to a room the user is currently in.
#[derive(Clone, Default, Debug)]
pub struct JoinedRoom {
    /// Counts of unread notifications for this room.
    pub unread_notifications: UnreadNotificationsCount,
    /// The timeline of messages and state changes in the room.
    pub timeline: Timeline,
    /// Updates to the state, between the time indicated by the `since`
    /// parameter, and the start of the `timeline`.
    pub state: Vec<String>,
    /// The private data that this user has attached to this room.
    pub account_data: Vec<String>,
    /// The ephemeral events in the room that aren't recorded in the timeline
    /// or state of the room, such as typing notifications.
    pub ephemeral: Vec<String>,
}

/// Updates to a room the user is no longer in.
#[derive(Clone, Default, Debug)]
pub struct LeftRoom {
    /// The timeline of messages and state changes in the room up to the
    /// point when the user left.
    pub timeline: Timeline,
    /// Updates to the state, between the time indicated by the `since`
    /// parameter, and the start of the `timeline`.
    pub state: Vec<String>,
    /// The private data that this user has attached to this room.
    pub account_data: Vec<String>,
}

/// Updates to a room the user is invited to.
#[derive(Clone, Default, Debug)]
pub struct InvitedRoom {
    /// The stripped state events that form the invite state.
    pub invite_state: Vec<String>,
}

/// Updates to rooms, each list in the order of the room identifiers.
#[derive(Clone, Default, Debug)]
pub struct Rooms {
    /// The rooms that the user has left or been banned from.
    pub leave: Vec<(String, LeftRoom)>,
    /// The rooms that the user has joined.
    pub join: Vec<(String, JoinedRoom)>,
    /// The rooms that the user has been invited to.
    pub invite: Vec<(String, InvitedRoom)>,
}

/// Information on E2E device updates.
#[derive(Clone, Default, Debug)]
pub struct DeviceLists {
    /// Users who have updated their device identity keys or who now share an
    /// encrypted room with the client since the previous sync.
    pub changed: Vec<String>,
    /// Users who no longer share an encrypted room with the client.
    pub left: Vec<String>,
}

/// A change in the ambiguity of a member's display name.
#[derive(Clone, Default, Debug)]
pub struct AmbiguityChange {
    /// Whether the member of the event is now ambiguous.
    pub member_ambiguous: bool,
    /// The member that is no longer ambiguous, if any.
    pub disambiguated_member: Option<String>,
    /// The member that became ambiguous, if any.
    pub ambiguated_member: Option<String>,
}

/// The ambiguity changes that room member events trigger, per room and per
/// event.
#[derive(Clone, Default, Debug)]
pub struct AmbiguityChanges {
    /// For each room, the changes that each member event caused.
    pub changes: Vec<(String, Vec<(String, AmbiguityChange)>)>,
}

/// A notification of an event that matched a push rule.
#[derive(Clone, Default, Debug)]
pub struct Notification {
    /// The actions to perform when the conditions for this rule are met.
    pub actions: Vec<String>,
    /// The event that triggered the notification, as raw JSON.
    pub event: String,
    /// The profile tag of the rule that matched this event.
    pub profile_tag: Option<String>,
    /// Whether the user has sent a read receipt past this event.
    pub read: bool,
    /// The room in which the event was posted.
    pub room_id: String,
    /// The time at which the event notification was sent, in milliseconds.
    pub ts: u64,
}

/// The response of a `/sync` request once the base client has processed it.
#[derive(Clone, Default, Debug)]
pub struct BaseSyncResponse {
    /// Updates to rooms.
    pub rooms: Rooms,
    /// Updates to the presence status of other users.
    pub presence: Vec<String>,
    /// The global private data created by this user.
    pub account_data: Vec<String>,
    /// Messages sent directly between devices.
    pub to_device: Vec<String>,
    /// Information on E2E device updates.
    pub device_lists: DeviceLists,
    /// For each key algorithm, the number of unclaimed one-time keys
    /// currently held on the server for a device.
    pub device_one_time_keys_count: Vec<(String, u64)>,
    /// Collection of ambiguity changes that room member events trigger.
    pub ambiguity_changes: AmbiguityChanges,
    /// New notifications per room.
    pub notifications: Vec<(String, Vec<Notification>)>,
}

/// The processed response of a `/sync` request.
#[derive(Clone, Default)]
pub struct SyncResponse {
    /// The batch token to supply in the `since` param of the next `/sync`
    /// request.
    pub next_batch: String,
    /// Updates to rooms.
    pub rooms: Rooms,
    /// Updates to the presence status of other users.
    pub presence: Vec<String>,
    /// The global private data created by this user.
    pub account_data: Vec<String>,
    /// Messages sent directly between devices.
    pub to_device: Vec<String>,
    /// Information on E2E device updates.
    ///
    /// Only present on an incremental sync.
    pub device_lists: DeviceLists,
    /// For each key algorithm, the number of unclaimed one-time keys
    /// currently held on the server for a device.
    pub device_one_time_keys_count: Vec<(String, u64)>,
    /// Collection of ambiguity changes that room member events trigger.
    pub ambiguity_changes: AmbiguityChanges,
    /// New notifications per room.
    pub notifications: Vec<(String, Vec<Notification>)>,
}

impl SyncResponse {
    /// Attaches the batch token of the next request to a processed response.
    pub fn new(next_batch: String, base_response: BaseSyncResponse) -> (r: Self)
        ensures
            r.next_batch == next_batch,
            r.rooms == base_response.rooms,
            r.presence == base_response.presence,
            r.account_data == base_response.account_data,
            r.to_device == base_response.to_device,
            r.device_lists == base_response.device_lists,
            r.device_one_time_keys_count == base_response.device_one_time_keys_count,
            r.ambiguity_changes == base_response.ambiguity_changes,
            r.notifications == base_response.notifications,
    {
        let BaseSyncResponse {
            rooms,
            presence,
            account_data,
            to_device,
            device_lists,
            device_one_time_keys_count,
            ambiguity_changes,
            notifications,
        } = base_response;

        Self {
            next_batch,
            rooms,
            presence,
            account_data,
            to_device,
            device_lists,
            device_one_time_keys_count,
            ambiguity_changes,
            notifications,
        }
    }
}

/// A batch of updates to a room, with the handle of the room it concerns.
#[derive(Clone)]
pub enum RoomUpdate<R> {
    /// Updates to a room the user is no longer in.
    Left {
        /// Room object with general information on the room.
        room: R,
        /// Updates to the room.
        updates: LeftRoom,
    },
    /// Updates to a room the user is currently in.
    Joined {
        /// Room object with general information on the room.
        room: R,
        /// Updates to the room.
        updates: JoinedRoom,
    },
    /// Updates to a room the user is invited to.
    Invited {
        /// Room object with general information on the room.
        room: R,
        /// Updates to the room.
        updates: InvitedRoom,
    },
}

/// The batch token of a sync outcome: the response's `next_batch` for a
/// response, none for a failure.
pub open spec fn outcome_batch<E>(response: Result<SyncResponse, E>) -> Option<Seq<char>> {
    match response {
        Ok(s) => Some(s.next_batch@),
        Err(_) => None,
    }
}

/// The token of the sync loop after one outcome: the outcome's batch token,
/// or the token as it was after a failure.
pub open spec fn token_step(token: Option<Seq<char>>, batch: Option<Seq<char>>) -> Option<Seq<char>> {
    match batch {
        Some(b) => Some(b),
        None => token,
    }
}

/// The token of the sync loop after the outcomes `batches`, in turn, from
/// `token`.
pub open spec fn token_after(token: Option<Seq<char>>, batches: Seq<Option<Seq<char>>>) -> Option<
    Seq<char>,
>
    decreases batches.len(),
{
    if batches.len() == 0 {
        token
    } else {
        token_after(token_step(token, batches[0]), batches.drop_first())
    }
}

/// The text of a sync token.
pub open spec fn token_view(token: Option<String>) -> Option<Seq<char>> {
    match token {
        Some(t) => Some(t@),
        None => None,
    }
}

/// Over any run of the sync loop, the token is the `next_batch` of the last
/// successful response: after a success at position `k` followed only by
/// failures, the next request continues from that response; and after
/// failures alone the token is the one the loop started with.
pub proof fn lemma_token_is_last_success(
    token: Option<Seq<char>>,
    batches: Seq<Option<Seq<char>>>,
    k: int,
)
    requires
        -1 <= k < batches.len(),
        k >= 0 ==> batches[k] is Some,
        forall|j: int| k < j < batches.len() ==> #[trigger] batches[j] is None,
    ensures
        token_after(token, batches) == (if k >= 0 {
            batches[k]
        } else {
            token
        }),
    decreases batches.len(),
{
    if batches.len() > 0 {
        let rest = batches.drop_first();
        let t1 = token_step(token, batches[0]);
        if k >= 1 {
            lemma_token_is_last_success(t1, rest, k - 1);
        } else {
            assert forall|j: int| -1 < j < rest.len() implies #[trigger] rest[j] is None by {
                assert(rest[j] == batches[j + 1]);
            }
            lemma_token_is_last_success(t1, rest, -1);
        }
    }
}

/// Records the outcome of one `/sync` request of the sync loop.
///
/// After a response, `sync_token` is its `next_batch`, so that the next
/// request continues where this one ended; after a failure it is left as it
/// was. The outcome is handed back unchanged.
pub fn sync_loop_helper<E>(sync_token: &mut Option<String>, response: Result<SyncResponse, E>) -> (r:
    Result<SyncResponse, E>)
    ensures
        r == response,
        token_view(*final(sync_token)) == token_step(token_view(*old(sync_token)), outcome_batch(response)),
        match response {
            Ok(s) => *final(sync_token) matches Some(t) && t@ == s.next_batch@,
            Err(_) => *final(sync_token) == *old(sync_token),
        },
{
    match response {
        Ok(r) => {
            *sync_token = Some(r.next_batch.clone());
            Ok(r)
        },
        Err(e) => Err(e),
    }
}

/// One second, in nanoseconds.
pub const SYNC_DELAY_NANOS: u64 = 1_000_000_000;

/// Whether a sync starting at `now` follows the one that started at
/// `last_sync_time` by one second or less (the time between them counted as
/// zero when `now` is earlier).
pub open spec fn too_soon(last_sync_time: Option<u64>, now: u64) -> bool {
    match last_sync_time {
        Some(t) => (if now >= t { now - t } else { 0 }) <= SYNC_DELAY_NANOS,
        None => false,
    }
}

/// The loop waits exactly when the last sync started one second (10^9
/// nanoseconds) ago or less: never before the first sync, always when the
/// clock reads earlier than the last sync, and otherwise exactly when the
/// time elapsed, as a mathematical difference, is at most one second. The
/// wait does not shrink as time passes: once the elapsed time exceeds one
/// second, no later time leads to a wait.
pub proof fn lemma_delay_rule(last_sync_time: Option<u64>, now: u64, later: u64)
    ensures
        last_sync_time is None ==> !too_soon(last_sync_time, now),
        last_sync_time matches Some(t) ==> (t <= now ==> (too_soon(last_sync_time, now) <==> now - t
            <= 1_000_000_000)),
        last_sync_time matches Some(t) ==> (now < t ==> too_soon(last_sync_time, now)),
        last_sync_time matches Some(t) ==> (t <= now <= later && !too_soon(last_sync_time, now)
            ==> !too_soon(last_sync_time, later)),
{
}

/// Decides whether the sync loop waits before its next request, and records
/// `now` as the time of the last sync.
///
/// Times are nanoseconds on a monotonic clock. If the last sync happened one
/// second ago or less, the loop sleeps a while so as not to hammer the server
/// when it does not respect the sync timeout.
pub fn delay_sync(last_sync_time: &mut Option<u64>, now: u64) -> (sleep: bool)
    ensures
        sleep == too_soon(*old(last_sync_time), now),
        *final(last_sync_time) == Some(now),
        *old(last_sync_time) is None ==> !sleep,
        *old(last_sync_time) matches Some(t) ==> (t <= now ==> (sleep <==> now - t <= 1_000_000_000)),
        *old(last_sync_time) matches Some(t) ==> (now < t ==> sleep),
{
    let sleep = match *last_sync_time {
        Some(t) => now.saturating_sub(t) <= SYNC_DELAY_NANOS,
        None => false,
    };
    *last_sync_time = Some(now);
    sleep
}

} // verus!
