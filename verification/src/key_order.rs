//! The order of identifiers: the order of their text, character by
//! character, in which the maps of a sync response are keyed.
use crate::sync::{AmbiguityChange, BaseSyncResponse, Notification, Rooms, SyncResponse};
use vstd::prelude::*;

verus! {

/// Whether identifier `a` comes strictly before identifier `b`: at the first
/// character where they differ, `a`'s has the lower code point, or `a` is a
/// proper prefix of `b`. This is the order of `str`, whose UTF-8 bytes compare
/// as their code points do.
pub open spec fn id_less(a: Seq<char>, b: Seq<char>) -> bool
    decreases a.len(),
{
    if a.len() == 0 {
        b.len() > 0
    } else if b.len() == 0 {
        false
    } else if a[0] != b[0] {
        (a[0] as u32) < (b[0] as u32)
    } else {
        id_less(a.drop_first(), b.drop_first())
    }
}

/// Whether the entries of a list keyed by identifiers come in strictly
/// ascending order of their keys, so that no key occurs twice: the order in
/// which a map keyed by identifiers is walked.
pub open spec fn ids_ascending<V>(s: Seq<(String, V)>) -> bool {
    forall|i: int, j: int| 0 <= i < j < s.len() ==> id_less(#[trigger] s[i].0@, #[trigger] s[j].0@)
}

/// Whether no key occurs twice in a list keyed by names.
pub open spec fn keys_distinct<V>(s: Seq<(String, V)>) -> bool {
    forall|i: int, j: int| 0 <= i < j < s.len() ==> #[trigger] s[i].0@ != #[trigger] s[j].0@
}

/// Whether the maps of a response hold what maps hold: the rooms of each
/// membership, the notification entries and the ambiguity changes (per room,
/// and per event within a room) in ascending order of their identifiers, and
/// each key algorithm of the one-time key counts once.
pub open spec fn maps_in_order(
    rooms: Rooms,
    device_one_time_keys_count: Vec<(String, u64)>,
    ambiguity_changes: Seq<(String, Vec<(String, AmbiguityChange)>)>,
    notifications: Vec<(String, Vec<Notification>)>,
) -> bool {
    &&& ids_ascending(rooms.join@)
    &&& ids_ascending(rooms.leave@)
    &&& ids_ascending(rooms.invite@)
    &&& ids_ascending(notifications@)
    &&& ids_ascending(ambiguity_changes)
    &&& forall|i: int|
        0 <= i < ambiguity_changes.len() ==> ids_ascending(#[trigger] ambiguity_changes[i].1@)
    &&& keys_distinct(device_one_time_keys_count@)
}

/// [`maps_in_order`] for a processed response.
pub open spec fn response_in_order(r: BaseSyncResponse) -> bool {
    maps_in_order(r.rooms, r.device_one_time_keys_count, r.ambiguity_changes.changes@, r.notifications)
}

/// [`maps_in_order`] for a response with its batch token.
pub open spec fn sync_response_in_order(r: SyncResponse) -> bool {
    maps_in_order(r.rooms, r.device_one_time_keys_count, r.ambiguity_changes.changes@, r.notifications)
}

/// The order is transitive.
pub proof fn lemma_id_less_transitive(a: Seq<char>, b: Seq<char>, c: Seq<char>)
    requires
        id_less(a, b),
        id_less(b, c),
    ensures
        id_less(a, c),
    decreases a.len(),
{
    if a.len() > 0 && b.len() > 0 && c.len() > 0 && a[0] == b[0] && b[0] == c[0] {
        lemma_id_less_transitive(a.drop_first(), b.drop_first(), c.drop_first());
    }
}

/// Identifiers that agree on their first `k` characters compare as what
/// follows those characters does.
proof fn lemma_id_less_common_prefix(a: Seq<char>, b: Seq<char>, k: int)
    requires
        0 <= k <= a.len(),
        k <= b.len(),
        forall|t: int| 0 <= t < k ==> a[t] == b[t],
    ensures
        id_less(a, b) == id_less(a.skip(k), b.skip(k)),
    decreases k,
{
    if k > 0 {
        let a1 = a.drop_first();
        let b1 = b.drop_first();
        assert forall|t: int| 0 <= t < k - 1 implies a1[t] == b1[t] by {
            assert(a[t + 1] == b[t + 1]);
        }
        lemma_id_less_common_prefix(a1, b1, k - 1);
        assert(a1.skip(k - 1) =~= a.skip(k));
        assert(b1.skip(k - 1) =~= b.skip(k));
    } else {
        assert(a.skip(0) =~= a);
        assert(b.skip(0) =~= b);
    }
}

/// The order of identifiers is the order of their text: at the first
/// position where two identifiers differ, the lower code point comes first;
/// an identifier comes before every longer one that starts with it; no
/// identifier comes before itself, and of two identifiers at most one comes
/// before the other.
pub proof fn lemma_id_order(a: Seq<char>, b: Seq<char>, k: int)
    ensures
        !id_less(a, a),
        id_less(a, b) ==> !id_less(b, a),
        (a.len() < b.len() && a =~= b.subrange(0, a.len() as int)) ==> id_less(a, b),
        (0 <= k < a.len() && k < b.len() && a[k] != b[k] && (forall|t: int|
            0 <= t < k ==> a[t] == b[t])) ==> (id_less(a, b) <==> (a[k] as u32) < (b[k] as u32)),
    decreases a.len(),
{
    if a.len() > 0 && b.len() > 0 && a[0] == b[0] {
        lemma_id_order(a.drop_first(), b.drop_first(), k - 1);
        if a.len() < b.len() && a =~= b.subrange(0, a.len() as int) {
            assert(a.drop_first() =~= b.drop_first().subrange(0, a.drop_first().len() as int));
        }
        if 0 < k < a.len() && k < b.len() && a[k] != b[k] && (forall|t: int|
            0 <= t < k ==> a[t] == b[t]) {
            assert forall|t: int| 0 <= t < k - 1 implies a.drop_first()[t] == b.drop_first()[t] by {
                assert(a[t + 1] == b[t + 1]);
            }
        }
    }
    if a.len() > 0 {
        lemma_id_order(a.drop_first(), a.drop_first(), 0);
    }
}

/// Whether identifier `a` comes strictly before identifier `b`.
pub fn id_before(a: &String, b: &String) -> (r: bool)
    ensures
        r == id_less(a@, b@),
{
    let sa = a.as_str();
    let sb = b.as_str();
    let la = sa.unicode_len();
    let lb = sb.unicode_len();
    let mut k: usize = 0;
    while k < la && k < lb && sa.get_char(k) == sb.get_char(k)
        invariant
            sa@ == a@,
            sb@ == b@,
            la == a@.len(),
            lb == b@.len(),
            k <= la,
            k <= lb,
            forall|t: int| 0 <= t < k ==> a@[t] == b@[t],
        decreases la - k,
    {
        k = k + 1;
    }
    proof {
        lemma_id_less_common_prefix(a@, b@, k as int);
    }
    if k < la && k < lb {
        let ca = sa.get_char(k);
        let cb = sb.get_char(k);
        proof {
            assert(a@.skip(k as int)[0] == ca);
            assert(b@.skip(k as int)[0] == cb);
        }
        (ca as u32) < (cb as u32)
    } else {
        k == la && k < lb
    }
}

/// Whether the keys of a list come in strictly ascending order.
pub fn ids_ascending_exec<V>(v: &Vec<(String, V)>) -> (r: bool)
    ensures
        r == ids_ascending(v@),
{
    let n = v.len();
    if n < 2 {
        return true;
    }
    let mut i: usize = 1;
    while i < n
        invariant
            n == v@.len(),
            1 <= i <= n,
            ids_ascending(v@.subrange(0, i as int)),
        decreases n - i,
    {
        if !id_before(&v[i - 1].0, &v[i].0) {
            proof {
                let j = (i - 1) as int;
                assert(!id_less(v@[j].0@, v@[j + 1].0@));
            }
            return false;
        }
        proof {
            let s = v@.subrange(0, i + 1);
            let p = v@.subrange(0, i as int);
            assert forall|x: int, y: int| 0 <= x < y < s.len() implies id_less(
                #[trigger] s[x].0@,
                #[trigger] s[y].0@,
            ) by {
                if y < i {
                    assert(s[x] == p[x] && s[y] == p[y]);
                } else if x < i - 1 {
                    assert(s[x] == p[x] && s[(i - 1) as int] == p[(i - 1) as int]);
                    lemma_id_less_transitive(s[x].0@, s[(i - 1) as int].0@, s[y].0@);
                }
            }
        }
        i = i + 1;
    }
    proof {
        assert(v@.subrange(0, n as int) =~= v@);
    }
    true
}

/// Whether no key occurs twice in a list keyed by names.
pub fn keys_distinct_exec<V>(v: &Vec<(String, V)>) -> (r: bool)
    ensures
        r == keys_distinct(v@),
{
    let n = v.len();
    let mut j: usize = 0;
    while j < n
        invariant
            n == v@.len(),
            j <= n,
            forall|x: int, y: int| 0 <= x < y < j ==> #[trigger] v@[x].0@ != #[trigger] v@[y].0@,
        decreases n - j,
    {
        let mut i: usize = 0;
        while i < j
            invariant
                n == v@.len(),
                i <= j < n,
                forall|x: int, y: int| 0 <= x < y < j ==> #[trigger] v@[x].0@ != #[trigger] v@[y].0@,
                forall|x: int| 0 <= x < i ==> #[trigger] v@[x].0@ != v@[j as int].0@,
            decreases j - i,
        {
            if v[i].0 == v[j].0 {
                return false;
            }
            i = i + 1;
        }
        j = j + 1;
    }
    true
}

fn maps_in_order_exec(
    rooms: &Rooms,
    device_one_time_keys_count: &Vec<(String, u64)>,
    ambiguity_changes: &Vec<(String, Vec<(String, AmbiguityChange)>)>,
    notifications: &Vec<(String, Vec<Notification>)>,
) -> (r: bool)
    ensures
        r == maps_in_order(*rooms, *device_one_time_keys_count, ambiguity_changes@, *notifications),
{
    if !ids_ascending_exec(&rooms.join) || !ids_ascending_exec(&rooms.leave) || !ids_ascending_exec(
        &rooms.invite,
    ) || !ids_ascending_exec(notifications) || !ids_ascending_exec(ambiguity_changes)
        || !keys_distinct_exec(device_one_time_keys_count) {
        return false;
    }
    let n = ambiguity_changes.len();
    let mut i: usize = 0;
    while i < n
        invariant
            n == ambiguity_changes@.len(),
            i <= n,
            forall|x: int| 0 <= x < i ==> ids_ascending(#[trigger] ambiguity_changes@[x].1@),
        decreases n - i,
    {
        if !ids_ascending_exec(&ambiguity_changes[i].1) {
            return false;
        }
        i = i + 1;
    }
    true
}

impl BaseSyncResponse {
    /// Whether the maps of this response are in key order (see
    /// [`response_in_order`]).
    pub fn keys_in_order(&self) -> (r: bool)
        ensures
            r == response_in_order(*self),
    {
        maps_in_order_exec(
            &self.rooms,
            &self.device_one_time_keys_count,
            &self.ambiguity_changes.changes,
            &self.notifications,
        )
    }
}

impl SyncResponse {
    /// Whether the maps of this response are in key order (see
    /// [`sync_response_in_order`]).
    pub fn keys_in_order(&self) -> (r: bool)
        ensures
            r == sync_response_in_order(*self),
    {
        maps_in_order_exec(
            &self.rooms,
            &self.device_one_time_keys_count,
            &self.ambiguity_changes.changes,
            &self.notifications,
        )
    }
}

} // verus!
