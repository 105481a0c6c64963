//! What holds of every dispatch of a sync response.
use crate::dispatch::{
    accepts, after_rooms, enter_room, handler_steps, is_limited, issued, next_stage,
    notification_next, room_count, room_handler_action, room_start, runs_handlers, stage_wf,
    HandlerKind, Membership, OutlineView, Stage, SyncAction, SyncEvent,
};
use vstd::prelude::*;

verus! {

/// The actions that the dispatcher answers from stage `s` on when the
/// outcomes `es` come in turn, up to the first one it does not await.
#[verifier::opaque]
pub open spec fn run(o: OutlineView, s: Stage, es: Seq<SyncEvent>) -> Seq<SyncAction>
    decreases es.len(),
{
    if es.len() == 0 || !accepts(s, es[0]) {
        Seq::empty()
    } else {
        let s2 = next_stage(o, s, es[0]);
        seq![issued(s2)] + run(o, s2, es.subrange(1, es.len() as int))
    }
}

/// The stage that the dispatcher reaches from `s` when the outcomes `es`
/// come in turn, up to the first one it does not await.
#[verifier::opaque]
pub open spec fn run_stage(o: OutlineView, s: Stage, es: Seq<SyncEvent>) -> Stage
    decreases es.len(),
{
    if es.len() == 0 || !accepts(s, es[0]) {
        s
    } else {
        run_stage(o, next_stage(o, s, es[0]), es.subrange(1, es.len() as int))
    }
}

/// The failure of a handler ends the dispatch at once with that failure:
/// the next action is `Finish(false)`, and a finished dispatch awaits
/// nothing more, so no handler, update or notification runs after it.
pub proof fn lemma_failure_ends_dispatch(o: OutlineView, s: Stage)
    requires
        runs_handlers(s),
    ensures
        accepts(s, SyncEvent::Failed),
        next_stage(o, s, SyncEvent::Failed) == Stage::Finished(false),
        issued(next_stage(o, s, SyncEvent::Failed)) == SyncAction::Finish(false),
        forall|e: SyncEvent| !accepts(Stage::Finished(false), e),
{
}

/// Only handlers fail: an outcome `Failed` is awaited exactly by the stages
/// that run event handlers. Gap notifications, lookups, room updates and the
/// notification handlers cannot end a dispatch with an error.
pub proof fn lemma_only_handlers_fail(s: Stage)
    ensures
        accepts(s, SyncEvent::Failed) <==> runs_handlers(s),
{
}

/// The actions of the dispatch of one room, when the outcomes of its
/// handlers are all successes: its gap notification if its timeline is
/// limited (whether or not the room is found), its lookup, and, if it was
/// found, its update and then its lists of events in order.
pub open spec fn room_script(o: OutlineView, m: Membership, i: usize, found: bool) -> Seq<
    SyncAction,
> {
    (if is_limited(o, m, i as int) {
        seq![SyncAction::NotifySyncGap(m, i)]
    } else {
        Seq::empty()
    }) + seq![SyncAction::LookupRoom(m, i)] + (if found {
        seq![SyncAction::SendRoomUpdate(m, i)] + Seq::new(
            handler_steps(m),
            |j: int| room_handler_action(m, i, j),
        )
    } else {
        Seq::empty()
    })
}

/// The outcomes that the dispatch of one room awaits when the room is found
/// or not, and all its handlers succeed.
pub open spec fn room_events(o: OutlineView, m: Membership, i: usize, found: bool) -> Seq<
    SyncEvent,
> {
    (if is_limited(o, m, i as int) {
        seq![SyncEvent::Completed]
    } else {
        Seq::empty()
    }) + seq![SyncEvent::RoomFound(found)] + (if found {
        Seq::new(handler_steps(m) + 1, |j: int| SyncEvent::Completed)
    } else {
        Seq::empty()
    })
}

/// Whether the dispatcher awaits each of the outcomes `es` in turn, from
/// stage `s` on.
#[verifier::opaque]
pub open spec fn accepts_all(o: OutlineView, s: Stage, es: Seq<SyncEvent>) -> bool
    decreases es.len(),
{
    es.len() == 0 || (accepts(s, es[0]) && accepts_all(
        o,
        next_stage(o, s, es[0]),
        es.subrange(1, es.len() as int),
    ))
}

/// Running two lists of outcomes one after the other answers the actions of
/// the first, then those of the second from where the first ended.
proof fn lemma_run_append(o: OutlineView, s: Stage, es1: Seq<SyncEvent>, es2: Seq<SyncEvent>)
    requires
        accepts_all(o, s, es1),
    ensures
        run(o, s, es1 + es2) == run(o, s, es1) + run(o, run_stage(o, s, es1), es2),
        run_stage(o, s, es1 + es2) == run_stage(o, run_stage(o, s, es1), es2),
        accepts_all(o, run_stage(o, s, es1), es2) ==> accepts_all(o, s, es1 + es2),
    decreases es1.len(),
{
    reveal(run);
    reveal(run_stage);
    reveal(accepts_all);
    if es1.len() == 0 {
        assert(es1 + es2 == es2);
    } else {
        let s2 = next_stage(o, s, es1[0]);
        let rest = es1.subrange(1, es1.len() as int);
        lemma_run_append(o, s2, rest, es2);
        assert((es1 + es2).subrange(1, (es1 + es2).len() as int) == rest + es2);
        assert((es1 + es2)[0] == es1[0]);
    }
}

/// No outcome answers no action and leaves the stage as it is.
proof fn lemma_run_empty(o: OutlineView, s: Stage, es: Seq<SyncEvent>)
    requires
        es.len() == 0,
    ensures
        run(o, s, es) == Seq::<SyncAction>::empty(),
        run_stage(o, s, es) == s,
        accepts_all(o, s, es),
{
    reveal(run);
    reveal(run_stage);
    reveal(accepts_all);
}

/// One accepted outcome answers the action of the stage it leads to.
proof fn lemma_run_one(o: OutlineView, s: Stage, e: SyncEvent)
    requires
        accepts(s, e),
    ensures
        run(o, s, seq![e]) == seq![issued(next_stage(o, s, e))],
        run_stage(o, s, seq![e]) == next_stage(o, s, e),
        accepts_all(o, s, seq![e]),
{
    reveal(run);
    reveal(run_stage);
    reveal(accepts_all);
    let rest = seq![e].subrange(1, 1);
    assert(rest.len() == 0);
    assert(run(o, next_stage(o, s, e), rest) == Seq::<SyncAction>::empty());
    assert(run_stage(o, next_stage(o, s, e), rest) == next_stage(o, s, e));
    assert(accepts_all(o, next_stage(o, s, e), rest));
    assert(seq![issued(next_stage(o, s, e))] + Seq::<SyncAction>::empty() == seq![
        issued(next_stage(o, s, e)),
    ]);
}

/// The handlers of a room that all succeed, from step `j` on: the lists
/// after step `j` in order, then the next room.
proof fn lemma_room_handlers(o: OutlineView, m: Membership, i: usize, j: usize)
    requires
        i < room_count(o, m),
        j < handler_steps(m),
    ensures
        ({
            let es = Seq::new((handler_steps(m) - j) as nat, |t: int| SyncEvent::Completed);
            &&& accepts_all(o, Stage::Handler(m, i, j), es)
            &&& run(o, Stage::Handler(m, i, j), es) == Seq::new(
                (handler_steps(m) - 1 - j) as nat,
                |t: int| room_handler_action(m, i, j + 1 + t),
            ) + seq![issued(enter_room(o, m, (i + 1) as usize))]
            &&& run_stage(o, Stage::Handler(m, i, j), es) == enter_room(o, m, (i + 1) as usize)
        }),
    decreases handler_steps(m) - j,
{
    let es = Seq::new((handler_steps(m) - j) as nat, |t: int| SyncEvent::Completed);
    let s = Stage::Handler(m, i, j);
    let s2 = next_stage(o, s, SyncEvent::Completed);
    lemma_run_one(o, s, SyncEvent::Completed);
    assert(es == seq![SyncEvent::Completed] + es.subrange(1, es.len() as int));
    if j + 1 < handler_steps(m) {
        lemma_room_handlers(o, m, i, (j + 1) as usize);
        let es2 = Seq::new((handler_steps(m) - (j + 1)) as nat, |t: int| SyncEvent::Completed);
        assert(es.subrange(1, es.len() as int) == es2);
        lemma_run_append(o, s, seq![SyncEvent::Completed], es2);
        assert(Seq::new(
            (handler_steps(m) - 1 - j) as nat,
            |t: int| room_handler_action(m, i, j + 1 + t),
        ) == seq![room_handler_action(m, i, j + 1)] + Seq::new(
            (handler_steps(m) - 1 - (j + 1)) as nat,
            |t: int| room_handler_action(m, i, (j + 1) + 1 + t),
        ));
    } else {
        assert(es =~= seq![SyncEvent::Completed]);
        assert(Seq::new(
            (handler_steps(m) - 1 - j) as nat,
            |t: int| room_handler_action(m, i, j + 1 + t),
        ) =~= Seq::<SyncAction>::empty());
    }
}

/// The dispatch of one room whose handlers all succeed answers exactly its
/// script, then moves on to the next room (or what follows the rooms): a
/// limited timeline is reported first, even for a room the client does not
/// know; a room that is not found gets no update and no handler; a found
/// room gets its update, then its account data, state, timeline and (when
/// joined) ephemeral events, in this order.
pub proof fn lemma_room_dispatch(o: OutlineView, m: Membership, i: usize, found: bool)
    requires
        i < room_count(o, m),
    ensures
        accepts_all(o, room_start(o, m, i), room_events(o, m, i, found)),
        seq![issued(room_start(o, m, i))] + run(o, room_start(o, m, i), room_events(o, m, i, found))
            == room_script(o, m, i, found) + seq![issued(enter_room(o, m, (i + 1) as usize))],
        run_stage(o, room_start(o, m, i), room_events(o, m, i, found)) == enter_room(
            o,
            m,
            (i + 1) as usize,
        ),
{
    let s0 = room_start(o, m, i);
    let gap_es: Seq<SyncEvent> = if is_limited(o, m, i as int) {
        seq![SyncEvent::Completed]
    } else {
        Seq::empty()
    };
    let gap_as: Seq<SyncAction> = if is_limited(o, m, i as int) {
        seq![SyncAction::NotifySyncGap(m, i)]
    } else {
        Seq::empty()
    };
    // Through the gap notification to the lookup.
    if is_limited(o, m, i as int) {
        lemma_run_one(o, s0, SyncEvent::Completed);
    } else {
        lemma_run_empty(o, s0, gap_es);
    }
    let s1 = Stage::Lookup(m, i);
    assert(run_stage(o, s0, gap_es) == s1);
    assert(accepts_all(o, s0, gap_es));
    assert(seq![issued(s0)] + run(o, s0, gap_es) == gap_as + seq![SyncAction::LookupRoom(m, i)]);
    // The lookup.
    let e1 = SyncEvent::RoomFound(found);
    lemma_run_one(o, s1, e1);
    let s2 = next_stage(o, s1, e1);
    if found {
        let hs = Seq::new(handler_steps(m) + 1, |j: int| SyncEvent::Completed);
        let s3 = Stage::Handler(m, i, 0);
        lemma_run_one(o, s2, SyncEvent::Completed);
        lemma_room_handlers(o, m, i, 0);
        let rest = Seq::new((handler_steps(m) - 0) as nat, |t: int| SyncEvent::Completed);
        assert(hs == seq![SyncEvent::Completed] + rest);
        lemma_run_append(o, s2, seq![SyncEvent::Completed], rest);
        lemma_run_append(o, s1, seq![e1], hs);
        lemma_run_append(o, s0, gap_es, seq![e1] + hs);
        assert(room_events(o, m, i, found) == gap_es + (seq![e1] + hs));
        assert(Seq::new(handler_steps(m), |j: int| room_handler_action(m, i, j)) == seq![
            room_handler_action(m, i, 0),
        ] + Seq::new(
            (handler_steps(m) - 1 - 0) as nat,
            |t: int| room_handler_action(m, i, 0 + 1 + t),
        ));
        assert(room_script(o, m, i, found) + seq![issued(enter_room(o, m, (i + 1) as usize))]
            == gap_as + seq![SyncAction::LookupRoom(m, i)] + (seq![SyncAction::SendRoomUpdate(m, i)]
            + (seq![room_handler_action(m, i, 0)] + (Seq::new(
            (handler_steps(m) - 1 - 0) as nat,
            |t: int| room_handler_action(m, i, 0 + 1 + t),
        ) + seq![issued(enter_room(o, m, (i + 1) as usize))]))));
    } else {
        lemma_run_append(o, s0, gap_es, seq![e1]);
        assert(room_events(o, m, i, found) == gap_es + seq![e1]);
        assert(room_script(o, m, i, found) == gap_as + seq![SyncAction::LookupRoom(m, i)]);
    }
}

/// The actions of the dispatch of the rooms of membership `m` from room `i`
/// on, when `found` tells which rooms the client knows and no handler fails.
pub open spec fn rooms_script(
    o: OutlineView,
    m: Membership,
    i: nat,
    found: spec_fn(Membership, nat) -> bool,
) -> Seq<SyncAction>
    decreases room_count(o, m) - i,
{
    if i < room_count(o, m) {
        room_script(o, m, i as usize, found(m, i)) + rooms_script(o, m, i + 1, found)
    } else {
        Seq::empty()
    }
}

/// The outcomes of the dispatch of the rooms of membership `m` from room
/// `i` on, when `found` tells which rooms the client knows and no handler
/// fails.
pub open spec fn rooms_events(
    o: OutlineView,
    m: Membership,
    i: nat,
    found: spec_fn(Membership, nat) -> bool,
) -> Seq<SyncEvent>
    decreases room_count(o, m) - i,
{
    if i < room_count(o, m) {
        room_events(o, m, i as usize, found(m, i)) + rooms_events(o, m, i + 1, found)
    } else {
        Seq::empty()
    }
}

#[verifier::rlimit(40)]
proof fn lemma_rooms_dispatch(
    o: OutlineView,
    m: Membership,
    i: nat,
    found: spec_fn(Membership, nat) -> bool,
)
    requires
        i <= room_count(o, m),
        room_count(o, m) < usize::MAX,
    ensures
        ({
            let s = enter_room(o, m, i as usize);
            let es = rooms_events(o, m, i, found);
            &&& accepts_all(o, s, es)
            &&& seq![issued(s)] + run(o, s, es) == rooms_script(o, m, i, found) + seq![
                issued(after_rooms(o, m)),
            ]
            &&& run_stage(o, s, es) == after_rooms(o, m)
        }),
    decreases room_count(o, m) - i,
{
    let s = enter_room(o, m, i as usize);
    if i < room_count(o, m) {
        let f = found(m, i);
        lemma_room_dispatch(o, m, i as usize, f);
        lemma_rooms_dispatch(o, m, i + 1, found);
        let e1 = room_events(o, m, i as usize, f);
        let e2 = rooms_events(o, m, i + 1, found);
        lemma_run_append(o, s, e1, e2);
        assert(((i + 1) as usize) as nat == i + 1);
        let a1 = room_script(o, m, i as usize, f);
        let a2 = rooms_script(o, m, i + 1, found);
        let mid = seq![issued(enter_room(o, m, (i + 1) as usize))];
        assert(seq![issued(s)] + run(o, s, e1) == a1 + mid);
        assert(mid + run(o, enter_room(o, m, (i + 1) as usize), e2) == a2 + seq![
            issued(after_rooms(o, m)),
        ]);
        assert(seq![issued(s)] + run(o, s, e1 + e2) == (seq![issued(s)] + run(o, s, e1)) + run(
            o,
            enter_room(o, m, (i + 1) as usize),
            e2,
        ));
        assert(a1 + mid + run(o, enter_room(o, m, (i + 1) as usize), e2) == a1 + (mid + run(
            o,
            enter_room(o, m, (i + 1) as usize),
            e2,
        )));
        assert(a1 + (a2 + seq![issued(after_rooms(o, m))]) == (a1 + a2) + seq![
            issued(after_rooms(o, m)),
        ]);
    } else {
        let es = rooms_events(o, m, i, found);
        lemma_run_empty(o, s, es);
        assert(rooms_script(o, m, i, found) =~= Seq::<SyncAction>::empty());
        assert(seq![issued(s)] + run(o, s, es) =~= rooms_script(o, m, i, found) + seq![
            issued(after_rooms(o, m)),
        ]);
    }
}

/// The stage in which the notification phase goes on for handler `h` of
/// `n`: its first entry, or the run once all handlers are through.
pub open spec fn handler_start(o: OutlineView, h: nat, n: nat) -> Stage {
    if h < n {
        Stage::NotificationLookup(h as usize, n as usize, 0)
    } else {
        Stage::RunNotifications
    }
}

/// The actions of the notification phase for handler `h`, from entry `k`
/// on, when `found` tells which entries' rooms the client knows: for each
/// entry in turn, its lookup, then the queuing of its notifications if its
/// room was found.
pub open spec fn entries_script(
    o: OutlineView,
    h: nat,
    k: nat,
    found: spec_fn(nat, nat) -> bool,
) -> Seq<SyncAction>
    decreases o.notification_rooms - k,
{
    if k < o.notification_rooms {
        seq![SyncAction::LookupNotificationRoom(k as usize)] + (if found(h, k) {
            seq![SyncAction::QueueNotifications { handler: h as usize, room: k as usize }]
        } else {
            Seq::empty()
        }) + entries_script(o, h, k + 1, found)
    } else {
        Seq::empty()
    }
}

/// The outcomes of the notification phase for handler `h`, from entry `k`
/// on.
pub open spec fn entries_events(
    o: OutlineView,
    h: nat,
    k: nat,
    found: spec_fn(nat, nat) -> bool,
) -> Seq<SyncEvent>
    decreases o.notification_rooms - k,
{
    if k < o.notification_rooms {
        seq![SyncEvent::RoomFound(found(h, k))] + (if found(h, k) {
            seq![SyncEvent::Completed]
        } else {
            Seq::empty()
        }) + entries_events(o, h, k + 1, found)
    } else {
        Seq::empty()
    }
}

/// The actions of the notification phase from handler `h` of `n` on: the
/// entries for each handler in turn.
pub open spec fn handlers_script(
    o: OutlineView,
    n: nat,
    h: nat,
    found: spec_fn(nat, nat) -> bool,
) -> Seq<SyncAction>
    decreases n - h,
{
    if h < n {
        entries_script(o, h, 0, found) + handlers_script(o, n, h + 1, found)
    } else {
        Seq::empty()
    }
}

/// The outcomes of the notification phase from handler `h` of `n` on.
pub open spec fn handlers_events(
    o: OutlineView,
    n: nat,
    h: nat,
    found: spec_fn(nat, nat) -> bool,
) -> Seq<SyncEvent>
    decreases n - h,
{
    if h < n {
        entries_events(o, h, 0, found) + handlers_events(o, n, h + 1, found)
    } else {
        Seq::empty()
    }
}

proof fn lemma_entries_dispatch(
    o: OutlineView,
    h: nat,
    n: nat,
    k: nat,
    found: spec_fn(nat, nat) -> bool,
)
    requires
        h < n,
        n <= usize::MAX,
        k <= o.notification_rooms,
        0 < o.notification_rooms < usize::MAX,
    ensures
        ({
            let s = notification_next(o, h as usize, n as usize, k as usize);
            let es = entries_events(o, h, k, found);
            &&& accepts_all(o, s, es)
            &&& seq![issued(s)] + run(o, s, es) == entries_script(o, h, k, found) + seq![
                issued(handler_start(o, h + 1, n)),
            ]
            &&& run_stage(o, s, es) == handler_start(o, h + 1, n)
        }),
    decreases o.notification_rooms - k,
{
    let s = notification_next(o, h as usize, n as usize, k as usize);
    let es = entries_events(o, h, k, found);
    if k < o.notification_rooms {
        let f = found(h, k);
        let e1: Seq<SyncEvent> = seq![SyncEvent::RoomFound(f)] + (if f {
            seq![SyncEvent::Completed]
        } else {
            Seq::empty()
        });
        let a1: Seq<SyncAction> = seq![SyncAction::LookupNotificationRoom(k as usize)] + (if f {
            seq![SyncAction::QueueNotifications { handler: h as usize, room: k as usize }]
        } else {
            Seq::empty()
        });
        let next = notification_next(o, h as usize, n as usize, (k + 1) as usize);
        lemma_run_one(o, s, SyncEvent::RoomFound(f));
        if f {
            let q = Stage::NotificationQueue(h as usize, n as usize, k as usize);
            lemma_run_one(o, q, SyncEvent::Completed);
            lemma_run_append(o, s, seq![SyncEvent::RoomFound(f)], seq![SyncEvent::Completed]);
            assert(e1 == seq![SyncEvent::RoomFound(f)] + seq![SyncEvent::Completed]);
        } else {
            assert(e1 =~= seq![SyncEvent::RoomFound(f)]);
        }
        assert(run_stage(o, s, e1) == next);
        assert(accepts_all(o, s, e1));
        assert(seq![issued(s)] + run(o, s, e1) =~= a1 + seq![issued(next)]);
        lemma_entries_dispatch(o, h, n, k + 1, found);
        assert(((k + 1) as usize) as nat == k + 1);
        let e2 = entries_events(o, h, k + 1, found);
        let a2 = entries_script(o, h, k + 1, found);
        assert(es == e1 + e2);
        assert(entries_script(o, h, k, found) == a1 + a2);
        lemma_run_append(o, s, e1, e2);
        let tail = seq![issued(handler_start(o, h + 1, n))];
        assert(seq![issued(next)] + run(o, next, e2) == a2 + tail);
        assert(seq![issued(s)] + run(o, s, es) == (seq![issued(s)] + run(o, s, e1)) + run(
            o,
            next,
            e2,
        ));
        assert((a1 + seq![issued(next)]) + run(o, next, e2) == a1 + (seq![issued(next)] + run(
            o,
            next,
            e2,
        )));
        assert(a1 + (a2 + tail) == (a1 + a2) + tail);
    } else {
        lemma_run_empty(o, s, es);
        assert(s == handler_start(o, h + 1, n));
        assert(entries_script(o, h, k, found) =~= Seq::<SyncAction>::empty());
        assert(seq![issued(s)] + run(o, s, es) =~= entries_script(o, h, k, found) + seq![
            issued(handler_start(o, h + 1, n)),
        ]);
    }
}

proof fn lemma_handlers_dispatch(o: OutlineView, n: nat, h: nat, found: spec_fn(nat, nat) -> bool)
    requires
        h <= n,
        n <= usize::MAX,
        0 < o.notification_rooms < usize::MAX,
    ensures
        ({
            let s = handler_start(o, h, n);
            let es = handlers_events(o, n, h, found);
            &&& accepts_all(o, s, es)
            &&& seq![issued(s)] + run(o, s, es) == handlers_script(o, n, h, found) + seq![
                SyncAction::RunNotificationHandlers,
            ]
            &&& run_stage(o, s, es) == Stage::RunNotifications
        }),
    decreases n - h,
{
    let s = handler_start(o, h, n);
    let es = handlers_events(o, n, h, found);
    if h < n {
        lemma_entries_dispatch(o, h, n, 0, found);
        assert(s == notification_next(o, h as usize, n as usize, 0));
        lemma_handlers_dispatch(o, n, h + 1, found);
        let e1 = entries_events(o, h, 0, found);
        let e2 = handlers_events(o, n, h + 1, found);
        let a1 = entries_script(o, h, 0, found);
        let a2 = handlers_script(o, n, h + 1, found);
        let next = handler_start(o, h + 1, n);
        lemma_run_append(o, s, e1, e2);
        let tail = seq![SyncAction::RunNotificationHandlers];
        assert(seq![issued(s)] + run(o, s, es) == (seq![issued(s)] + run(o, s, e1)) + run(
            o,
            next,
            e2,
        ));
        assert((a1 + seq![issued(next)]) + run(o, next, e2) == a1 + (seq![issued(next)] + run(
            o,
            next,
            e2,
        )));
        assert(a1 + (a2 + tail) == (a1 + a2) + tail);
    } else {
        lemma_run_empty(o, s, es);
        assert(handlers_script(o, n, h, found) =~= Seq::<SyncAction>::empty());
        assert(seq![issued(s)] + run(o, s, es) =~= handlers_script(o, n, h, found) + seq![
            SyncAction::RunNotificationHandlers,
        ]);
    }
}

/// Two pieces of a dispatch one after the other, each answering its actions
/// and ending where the next begins.
proof fn lemma_chain(
    o: OutlineView,
    s: Stage,
    mid: Stage,
    end: Stage,
    es1: Seq<SyncEvent>,
    es2: Seq<SyncEvent>,
    a1: Seq<SyncAction>,
    a2: Seq<SyncAction>,
)
    requires
        accepts_all(o, s, es1),
        seq![issued(s)] + run(o, s, es1) == a1 + seq![issued(mid)],
        run_stage(o, s, es1) == mid,
        accepts_all(o, mid, es2),
        seq![issued(mid)] + run(o, mid, es2) == a2 + seq![issued(end)],
        run_stage(o, mid, es2) == end,
    ensures
        accepts_all(o, s, es1 + es2),
        seq![issued(s)] + run(o, s, es1 + es2) == (a1 + a2) + seq![issued(end)],
        run_stage(o, s, es1 + es2) == end,
{
    lemma_run_append(o, s, es1, es2);
    assert(seq![issued(s)] + run(o, s, es1 + es2) == (seq![issued(s)] + run(o, s, es1)) + run(
        o,
        mid,
        es2,
    ));
    assert((a1 + seq![issued(mid)]) + run(o, mid, es2) == a1 + (seq![issued(mid)] + run(
        o,
        mid,
        es2,
    )));
    assert(a1 + (a2 + seq![issued(end)]) == (a1 + a2) + seq![issued(end)]);
}

/// The actions of the notification phase after `n` handlers were fetched.
pub open spec fn notification_script(o: OutlineView, n: nat, found: spec_fn(nat, nat) -> bool) -> Seq<
    SyncAction,
> {
    if n > 0 && o.notification_rooms > 0 {
        handlers_script(o, n, 0, found)
    } else {
        Seq::empty()
    }
}

/// The outcomes of the notification phase after `n` handlers were fetched.
pub open spec fn notification_events(o: OutlineView, n: nat, found: spec_fn(nat, nat) -> bool) -> Seq<
    SyncEvent,
> {
    if n > 0 && o.notification_rooms > 0 {
        handlers_events(o, n, 0, found)
    } else {
        Seq::empty()
    }
}

/// Every action of a dispatch in which no handler fails, when
/// `room_found` tells which rooms the client knows, `n` notification
/// handlers are registered and `notification_found` tells, for each handler
/// and entry of the notifications, whether the entry's room was found.
pub open spec fn dispatch_script(
    o: OutlineView,
    room_found: spec_fn(Membership, nat) -> bool,
    n: nat,
    notification_found: spec_fn(nat, nat) -> bool,
) -> Seq<SyncAction> {
    seq![
        SyncAction::HandleGlobalEvents(HandlerKind::GlobalAccountData),
        SyncAction::HandleGlobalEvents(HandlerKind::Presence),
        SyncAction::HandleGlobalEvents(HandlerKind::ToDevice),
    ] + rooms_script(o, Membership::Joined, 0, room_found) + rooms_script(
        o,
        Membership::Left,
        0,
        room_found,
    ) + rooms_script(o, Membership::Invited, 0, room_found) + (seq![
        SyncAction::FetchNotificationHandlers,
    ] + notification_script(o, n, notification_found)) + seq![SyncAction::RunNotificationHandlers]
        + seq![SyncAction::Finish(true)]
}

/// The outcomes that such a dispatch awaits, in order.
pub open spec fn dispatch_events(
    o: OutlineView,
    room_found: spec_fn(Membership, nat) -> bool,
    n: nat,
    notification_found: spec_fn(nat, nat) -> bool,
) -> Seq<SyncEvent> {
    seq![SyncEvent::Completed, SyncEvent::Completed, SyncEvent::Completed] + rooms_events(
        o,
        Membership::Joined,
        0,
        room_found,
    ) + rooms_events(o, Membership::Left, 0, room_found) + rooms_events(
        o,
        Membership::Invited,
        0,
        room_found,
    ) + (seq![SyncEvent::HandlersFetched(n as usize)] + notification_events(
        o,
        n,
        notification_found,
    )) + seq![SyncEvent::Completed]
}

/// A dispatch in which no handler fails answers exactly, whatever the
/// lookups find: the global account data, presence and to-device events in
/// this order; then the joined rooms, the left rooms and the invited rooms,
/// each room in the response's order and by its script (see
/// `lemma_room_dispatch`); then the fetch of the notification handlers; for
/// each handler in turn, for each entry of the notifications in turn, its
/// lookup and, if its room was found, the queuing of its notifications;
/// then a single run of all that was queued, in that order, after every
/// event handler; and it ends in success.
pub proof fn lemma_dispatch_without_failures(
    o: OutlineView,
    room_found: spec_fn(Membership, nat) -> bool,
    n: nat,
    notification_found: spec_fn(nat, nat) -> bool,
)
    requires
        o.joined.len() < usize::MAX,
        o.left.len() < usize::MAX,
        o.invited < usize::MAX,
        o.notification_rooms < usize::MAX,
        n <= usize::MAX,
    ensures
        ({
            let es = dispatch_events(o, room_found, n, notification_found);
            &&& accepts_all(o, Stage::Global(0), es)
            &&& seq![issued(Stage::Global(0))] + run(o, Stage::Global(0), es) == dispatch_script(
                o,
                room_found,
                n,
                notification_found,
            )
            &&& run_stage(o, Stage::Global(0), es) == Stage::Finished(true)
        }),
{
    let c = SyncEvent::Completed;
    // The global kinds.
    let g0 = Stage::Global(0);
    let g1 = Stage::Global(1);
    let g2 = Stage::Global(2);
    let j0 = enter_room(o, Membership::Joined, 0);
    lemma_run_one(o, g0, c);
    lemma_run_one(o, g1, c);
    lemma_run_one(o, g2, c);
    lemma_chain(
        o,
        g0,
        g1,
        g2,
        seq![c],
        seq![c],
        seq![SyncAction::HandleGlobalEvents(HandlerKind::GlobalAccountData)],
        seq![SyncAction::HandleGlobalEvents(HandlerKind::Presence)],
    );
    lemma_chain(
        o,
        g0,
        g2,
        j0,
        seq![c] + seq![c],
        seq![c],
        seq![SyncAction::HandleGlobalEvents(HandlerKind::GlobalAccountData)] + seq![
            SyncAction::HandleGlobalEvents(HandlerKind::Presence),
        ],
        seq![SyncAction::HandleGlobalEvents(HandlerKind::ToDevice)],
    );
    let ge = seq![c] + seq![c] + seq![c];
    let ga = seq![SyncAction::HandleGlobalEvents(HandlerKind::GlobalAccountData)] + seq![
        SyncAction::HandleGlobalEvents(HandlerKind::Presence),
    ] + seq![SyncAction::HandleGlobalEvents(HandlerKind::ToDevice)];
    assert(ge =~= seq![c, c, c]);
    assert(ga =~= seq![
        SyncAction::HandleGlobalEvents(HandlerKind::GlobalAccountData),
        SyncAction::HandleGlobalEvents(HandlerKind::Presence),
        SyncAction::HandleGlobalEvents(HandlerKind::ToDevice),
    ]);
    // The rooms.
    let l0 = enter_room(o, Membership::Left, 0);
    let i0 = enter_room(o, Membership::Invited, 0);
    assert(after_rooms(o, Membership::Joined) == l0);
    assert(after_rooms(o, Membership::Left) == i0);
    lemma_rooms_dispatch(o, Membership::Joined, 0, room_found);
    lemma_rooms_dispatch(o, Membership::Left, 0, room_found);
    lemma_rooms_dispatch(o, Membership::Invited, 0, room_found);
    let rj = rooms_events(o, Membership::Joined, 0, room_found);
    let rl = rooms_events(o, Membership::Left, 0, room_found);
    let ri = rooms_events(o, Membership::Invited, 0, room_found);
    let aj = rooms_script(o, Membership::Joined, 0, room_found);
    let al = rooms_script(o, Membership::Left, 0, room_found);
    let ai = rooms_script(o, Membership::Invited, 0, room_found);
    lemma_chain(o, g0, j0, l0, ge, rj, ga, aj);
    lemma_chain(o, g0, l0, i0, ge + rj, rl, ga + aj, al);
    lemma_chain(o, g0, i0, Stage::FetchHandlers, ge + rj + rl, ri, ga + aj + al, ai);
    // The notification phase.
    let f = Stage::FetchHandlers;
    let fe = SyncEvent::HandlersFetched(n as usize);
    let ne = notification_events(o, n, notification_found);
    let na = notification_script(o, n, notification_found);
    lemma_run_one(o, f, fe);
    if n > 0 && o.notification_rooms > 0 {
        assert(next_stage(o, f, fe) == handler_start(o, 0, n));
        lemma_handlers_dispatch(o, n, 0, notification_found);
        lemma_chain(
            o,
            f,
            handler_start(o, 0, n),
            Stage::RunNotifications,
            seq![fe],
            ne,
            seq![SyncAction::FetchNotificationHandlers],
            na,
        );
    } else {
        assert(next_stage(o, f, fe) == Stage::RunNotifications);
        lemma_run_empty(o, Stage::RunNotifications, ne);
        assert(seq![issued(Stage::RunNotifications)] + run(o, Stage::RunNotifications, ne) =~= na
            + seq![issued(Stage::RunNotifications)]);
        lemma_chain(
            o,
            f,
            Stage::RunNotifications,
            Stage::RunNotifications,
            seq![fe],
            ne,
            seq![SyncAction::FetchNotificationHandlers],
            na,
        );
    }
    lemma_chain(
        o,
        g0,
        f,
        Stage::RunNotifications,
        ge + rj + rl + ri,
        seq![fe] + ne,
        ga + aj + al + ai,
        seq![SyncAction::FetchNotificationHandlers] + na,
    );
    // The run, and success.
    lemma_run_one(o, Stage::RunNotifications, c);
    lemma_chain(
        o,
        g0,
        Stage::RunNotifications,
        Stage::Finished(true),
        ge + rj + rl + ri + (seq![fe] + ne),
        seq![c],
        ga + aj + al + ai + (seq![SyncAction::FetchNotificationHandlers] + na),
        seq![SyncAction::RunNotificationHandlers],
    );
}

/// Where the rooms of a membership start in the order of the dispatch
/// before the notification phase, counting eight places per room.
pub open spec fn room_base(o: OutlineView, m: Membership) -> nat {
    match m {
        Membership::Joined => 3,
        Membership::Left => 3 + 8 * o.joined.len(),
        Membership::Invited => 3 + 8 * (o.joined.len() + o.left.len()),
    }
}

/// The place of the fetch of the notification handlers.
pub open spec fn fetch_position(o: OutlineView) -> nat {
    3 + 8 * (o.joined.len() + o.left.len() + o.invited)
}

/// The place of a stage before the notification phase.
pub open spec fn position(o: OutlineView, s: Stage) -> nat {
    match s {
        Stage::Global(g) => g as nat,
        Stage::Gap(m, i) => room_base(o, m) + 8 * (i as nat),
        Stage::Lookup(m, i) => room_base(o, m) + 8 * (i as nat) + 1,
        Stage::Update(m, i) => room_base(o, m) + 8 * (i as nat) + 2,
        Stage::Handler(m, i, j) => room_base(o, m) + 8 * (i as nat) + 3 + (j as nat),
        _ => fetch_position(o),
    }
}

/// How much of the dispatch is left from a stage: a phase (two before the
/// notification phase, one in it, none after) and the steps left in it.
pub open spec fn remaining(o: OutlineView, s: Stage) -> (nat, nat) {
    let r = o.notification_rooms;
    match s {
        Stage::NotificationLookup(h, n, k) => (1, (2 * (n * r) - 2 * (h * r + k)) as nat),
        Stage::NotificationQueue(h, n, k) => (1, (2 * (n * r) - 2 * (h * r + k) - 1) as nat),
        Stage::RunNotifications => (0, 1),
        Stage::Finished(_) => (0, 0),
        _ => (2, (fetch_position(o) - position(o, s)) as nat),
    }
}

/// Whether `a` comes strictly before `b` in the order of phases, then steps.
pub open spec fn rank_below(a: (nat, nat), b: (nat, nat)) -> bool {
    a.0 < b.0 || (a.0 == b.0 && a.1 < b.1)
}

proof fn lemma_entry_rank(r: nat, n: nat, h: nat, k: nat)
    requires
        h < n,
        k < r,
    ensures
        h * r + k < n * r,
        k + 1 == r ==> (h + 1) * r == h * r + k + 1,
        h + 1 < n ==> (h + 1) * r < n * r,
{
    assert((h + 1) * r == h * r + r) by (nonlinear_arith);
    assert((h + 1) * r <= n * r) by (nonlinear_arith)
        requires
            h + 1 <= n,
    ;
    if h + 1 < n {
        assert((h + 1) * r + r <= n * r) by (nonlinear_arith)
            requires
                h + 2 <= n,
        ;
    }
}

proof fn lemma_notification_step(o: OutlineView, s: Stage, e: SyncEvent)
    requires
        o.notification_rooms <= usize::MAX,
        s is NotificationLookup || s is NotificationQueue,
        stage_wf(o, s),
        accepts(s, e),
    ensures
        stage_wf(o, next_stage(o, s, e)),
        rank_below(remaining(o, next_stage(o, s, e)), remaining(o, s)),
{
    let r = o.notification_rooms;
    let (h, n, k) = match s {
        Stage::NotificationLookup(h, n, k) => (h, n, k),
        Stage::NotificationQueue(h, n, k) => (h, n, k),
        _ => (0, 0, 0),
    };
    lemma_entry_rank(r, n as nat, h as nat, k as nat);
    let x = h * r + k;
    assert(x < n * r);
    let s2 = next_stage(o, s, e);
    if s2 is NotificationQueue {
        assert(s2 == Stage::NotificationQueue(h, n, k));
    } else if k + 1 < r {
        assert(s2 == Stage::NotificationLookup(h, n, (k + 1) as usize));
        assert(h * r + ((k + 1) as usize) == x + 1);
    } else if h + 1 < n {
        let h1 = (h + 1) as usize;
        assert(s2 == Stage::NotificationLookup(h1, n, 0));
        assert(h1 * r == (h as nat + 1) * r);
        assert(h1 * r + 0 == x + 1);
    } else {
        assert(s2 == Stage::RunNotifications);
    }
}

/// The stages of the rooms of a membership lie between the start of its
/// rooms and the fetch of the notification handlers.
proof fn lemma_room_place(o: OutlineView, m: Membership, i: nat)
    requires
        i < room_count(o, m),
    ensures
        room_base(o, m) + 8 * i + 8 <= fetch_position(o),
{
}

/// Entering room `i` of `m` (or what follows the rooms of `m`) leads to a
/// well-formed stage before the notification phase, at or after the place
/// of room `i`.
proof fn lemma_enter_room_place(o: OutlineView, m: Membership, i: usize)
    requires
        i <= room_count(o, m),
    ensures
        stage_wf(o, enter_room(o, m, i)),
        remaining(o, enter_room(o, m, i)).0 == 2,
        room_base(o, m) + 8 * i <= position(o, enter_room(o, m, i)) <= fetch_position(o),
{
    let s = enter_room(o, m, i);
    if i < room_count(o, m) {
        lemma_room_place(o, m, i as nat);
    } else {
        match m {
            Membership::Joined => {
                if room_count(o, Membership::Left) > 0 {
                    lemma_room_place(o, Membership::Left, 0);
                } else if room_count(o, Membership::Invited) > 0 {
                    lemma_room_place(o, Membership::Invited, 0);
                }
            },
            Membership::Left => {
                if room_count(o, Membership::Invited) > 0 {
                    lemma_room_place(o, Membership::Invited, 0);
                }
            },
            Membership::Invited => {},
        }
    }
}

proof fn lemma_room_step(o: OutlineView, s: Stage, e: SyncEvent)
    requires
        o.joined.len() <= usize::MAX,
        o.left.len() <= usize::MAX,
        o.invited <= usize::MAX,
        s is Global || s is Gap || s is Lookup || s is Update || s is Handler,
        stage_wf(o, s),
        accepts(s, e),
        e != SyncEvent::Failed,
    ensures
        stage_wf(o, next_stage(o, s, e)),
        rank_below(remaining(o, next_stage(o, s, e)), remaining(o, s)),
{
    match s {
        Stage::Global(g) => {
            if g >= 2 {
                lemma_enter_room_place(o, Membership::Joined, 0);
            }
        },
        Stage::Gap(m, i) | Stage::Update(m, i) => {
            lemma_room_place(o, m, i as nat);
        },
        Stage::Lookup(m, i) => {
            lemma_room_place(o, m, i as nat);
            if e != SyncEvent::RoomFound(true) {
                lemma_enter_room_place(o, m, (i + 1) as usize);
            }
        },
        Stage::Handler(m, i, j) => {
            lemma_room_place(o, m, i as nat);
            if j + 1 >= handler_steps(m) {
                lemma_enter_room_place(o, m, (i + 1) as usize);
            }
        },
        _ => {},
    }
}

/// Every outcome that the dispatcher awaits moves it to a stage that is
/// again well-formed and strictly further on, in an order with no infinite
/// descent: the dispatch of a response always finishes, and never comes back
/// to a room, an entry or a step it has left.
pub proof fn lemma_dispatch_moves_forward(o: OutlineView, s: Stage, e: SyncEvent)
    requires
        o.joined.len() <= usize::MAX,
        o.left.len() <= usize::MAX,
        o.invited <= usize::MAX,
        o.notification_rooms <= usize::MAX,
        stage_wf(o, s),
        accepts(s, e),
    ensures
        stage_wf(o, next_stage(o, s, e)),
        rank_below(remaining(o, next_stage(o, s, e)), remaining(o, s)),
{
    let r = o.notification_rooms;
    if e != SyncEvent::Failed {
        match s {
            Stage::NotificationLookup(..) | Stage::NotificationQueue(..) => {
                lemma_notification_step(o, s, e);
            },
            Stage::Global(..) | Stage::Gap(..) | Stage::Lookup(..) | Stage::Update(..)
            | Stage::Handler(..) => {
                lemma_room_step(o, s, e);
            },
            Stage::FetchHandlers => {
                if let SyncEvent::HandlersFetched(n) = e {
                    if n > 0 && r > 0 {
                        lemma_entry_rank(r, n as nat, 0, 0);
                    }
                }
            },
            _ => {},
        }
    }
}

/// The handlers of a found room run in this order, after its update:
/// account data, state, timeline and then ephemeral events for a joined room
/// (read receipts among the ephemeral events can refer to timeline events of
/// the same response); account data, state and timeline for a left room;
/// the stripped state for an invite. After the last one the dispatch goes on
/// with the next room.
pub proof fn lemma_room_handler_order(o: OutlineView, m: Membership, i: usize)
    requires
        i < room_count(o, m),
    ensures
        ({
            let c = SyncEvent::Completed;
            let s0 = Stage::Update(m, i);
            let s1 = next_stage(o, s0, c);
            let s2 = next_stage(o, s1, c);
            let s3 = next_stage(o, s2, c);
            let s4 = next_stage(o, s3, c);
            let s5 = next_stage(o, s4, c);
            &&& issued(s0) == SyncAction::SendRoomUpdate(m, i)
            &&& m == Membership::Joined ==> {
                &&& issued(s1) == SyncAction::HandleRoomEvents(HandlerKind::RoomAccountData, m, i)
                &&& issued(s2) == SyncAction::HandleStateEvents(m, i)
                &&& issued(s3) == SyncAction::HandleTimelineEvents(m, i)
                &&& issued(s4) == SyncAction::HandleRoomEvents(HandlerKind::EphemeralRoomData, m, i)
                &&& s5 == enter_room(o, m, (i + 1) as usize)
            }
            &&& m == Membership::Left ==> {
                &&& issued(s1) == SyncAction::HandleRoomEvents(HandlerKind::RoomAccountData, m, i)
                &&& issued(s2) == SyncAction::HandleStateEvents(m, i)
                &&& issued(s3) == SyncAction::HandleTimelineEvents(m, i)
                &&& s4 == enter_room(o, m, (i + 1) as usize)
            }
            &&& m == Membership::Invited ==> {
                &&& issued(s1) == SyncAction::HandleRoomEvents(HandlerKind::StrippedState, m, i)
                &&& s2 == enter_room(o, m, (i + 1) as usize)
            }
        }),
{
}

} // verus!
