//! The tournament-membership table: whether a user is presently a member of
//! a tournament, versioned per (tournament, user).  Appending is the only
//! way to join or change status.

use vstd::prelude::*;

use crate::db_types::Db;
use crate::db_types::TournamentMembership;
use crate::db_types::TournamentMembershipPayload;
use crate::db_types::member_key;
use crate::db_types::membership_current_spec;
use crate::db_types::spec_tournament_membership;
use crate::db_types::tournament_by_id_spec;
use crate::store::GroupKey;
use crate::store::Record;
use crate::store::StoreError;
use crate::store::is_current_at;
use crate::store::latest_for_key;
use crate::store::lemma_latest_append;
use crate::store::lemma_latest_at;

verus! {

/// Appends a membership version.  The member must not be the creator of the
/// tournament, which must exist.
pub fn add(
    db: &mut Db,
    creator_user_id: i64,
    tournament_id: i64,
    active: bool,
    now: i64,
) -> (r: Result<TournamentMembership, StoreError>)
    requires
        old(db).wf(),
        tournament_by_id_spec(*old(db), tournament_id) matches Some(t) && t.creator_user_id
            != creator_user_id,
    ensures
        final(db).wf(),
        old(db).tournament_memberships.next_id == i64::MAX ==> r is Err && *final(db) == *old(db),
        old(db).tournament_memberships.next_id < i64::MAX ==> {
            let rec = (Record {
                id: old(db).tournament_memberships.next_id,
                creation_time: now,
                creator_user_id,
                key: member_key(tournament_id, creator_user_id),
                payload: TournamentMembershipPayload { active },
            });
            &&& r == Ok::<TournamentMembership, StoreError>(spec_tournament_membership(rec))
            &&& final(db).tournament_memberships.rows@ == old(
                db,
            ).tournament_memberships.rows@.push(rec)
            &&& final(db).tournament_memberships.next_id == old(
                db,
            ).tournament_memberships.next_id + 1
            &&& membership_current_spec(*final(db), tournament_id, creator_user_id) == Some(
                spec_tournament_membership(rec),
            )
            &&& forall|a: i64, b: i64|
                member_key(a, b) != member_key(tournament_id, creator_user_id)
                    ==> #[trigger] membership_current_spec(*final(db), a, b)
                    == membership_current_spec(*old(db), a, b)
        },
        final(db).tournaments == old(db).tournaments,
        final(db).tournament_datas == old(db).tournament_datas,
        final(db).tournament_years == old(db).tournament_years,
        final(db).tournament_submissions == old(db).tournament_submissions,
        final(db).tournament_year_demands == old(db).tournament_year_demands,
{
    let key = GroupKey { tournament_id, user_id: creator_user_id, year: 0 };
    let payload = TournamentMembershipPayload { active };
    match db.tournament_memberships.append(creator_user_id, now, key, payload) {
        Ok(id) => {
            proof {
                let rows = old(db).tournament_memberships.rows@;
                let rec = db.tournament_memberships.rows@.last();
                assert(db.tournament_memberships.rows@ =~= rows + seq![rec]);
                assert forall|a: i64, b: i64|
                    member_key(a, b) != member_key(tournament_id, creator_user_id)
                        implies #[trigger] membership_current_spec(*db, a, b)
                    == membership_current_spec(*old(db), a, b) by {
                    lemma_latest_append(rows, seq![rec], member_key(a, b));
                }
            }
            Ok(
                TournamentMembership {
                    tournament_membership_id: id,
                    creation_time: now,
                    creator_user_id,
                    tournament_id,
                    active,
                },
            )
        },
        Err(e) => Err(e),
    }
}

/// The current membership version of one user in one tournament.
pub fn get_recent_by_tournament_user(db: &Db, tournament_id: i64, user_id: i64)
    -> (r: Option<TournamentMembership>)
    ensures
        r == membership_current_spec(*db, tournament_id, user_id),
{
    let key = GroupKey { tournament_id, user_id, year: 0 };
    match db.tournament_memberships.current_index(key) {
        Some(i) => {
            let rec = &db.tournament_memberships.rows[i];
            Some(
                TournamentMembership {
                    tournament_membership_id: rec.id,
                    creation_time: rec.creation_time,
                    creator_user_id: rec.creator_user_id,
                    tournament_id: rec.key.tournament_id,
                    active: rec.payload.active,
                },
            )
        },
        None => None,
    }
}

// ---------------------------------------------------------------------------
// Filtered listing.
// ---------------------------------------------------------------------------

/// Whether row `i` passes the membership view filter.
pub open spec fn membership_query_matches(
    rows: Seq<Record<TournamentMembershipPayload>>,
    i: int,
    props: crate::request::TournamentMembershipViewProps,
) -> bool {
    let r = rows[i];
    &&& (props.tournament_membership_id matches Some(v) ==> v@.contains(r.id))
    &&& (props.min_creation_time matches Some(t) ==> r.creation_time >= t)
    &&& (props.max_creation_time matches Some(t) ==> r.creation_time <= t)
    &&& (props.creator_user_id matches Some(v) ==> v@.contains(r.creator_user_id))
    &&& (props.tournament_id matches Some(v) ==> v@.contains(r.key.tournament_id))
    &&& (props.active matches Some(b) ==> r.payload.active == b)
    &&& (props.only_recent ==> is_current_at(rows, i))
}

pub open spec fn membership_query_upto(
    rows: Seq<Record<TournamentMembershipPayload>>,
    props: crate::request::TournamentMembershipViewProps,
    n: int,
) -> Seq<TournamentMembership>
    decreases n,
{
    if n <= 0 {
        Seq::empty()
    } else {
        let p = membership_query_upto(rows, props, n - 1);
        if membership_query_matches(rows, n - 1, props) {
            p.push(spec_tournament_membership(rows[n - 1]))
        } else {
            p
        }
    }
}

/// The rows passing the filter, in identifier order.
pub open spec fn membership_query_spec(
    rows: Seq<Record<TournamentMembershipPayload>>,
    props: crate::request::TournamentMembershipViewProps,
) -> Seq<TournamentMembership> {
    membership_query_upto(rows, props, rows.len() as int)
}

/// Filtered listing of membership versions, ordered by identifier ascending.
pub fn query(db: &Db, props: &crate::request::TournamentMembershipViewProps) -> (r: Vec<
    TournamentMembership,
>)
    ensures
        r@ == membership_query_spec(db.tournament_memberships.rows@, *props),
{
    let n = db.tournament_memberships.rows.len();
    let mut out: Vec<TournamentMembership> = Vec::new();
    let mut i: usize = 0;
    while i < n
        invariant
            i <= n,
            n == db.tournament_memberships.rows@.len(),
            out@ == membership_query_upto(db.tournament_memberships.rows@, *props, i as int),
        decreases n - i,
    {
        let rec = &db.tournament_memberships.rows[i];
        let mut keep = true;
        if let Some(v) = &props.tournament_membership_id {
            if !crate::store::contains_i64(v, rec.id) {
                keep = false;
            }
        }
        if let Some(t) = &props.min_creation_time {
            if rec.creation_time < *t {
                keep = false;
            }
        }
        if let Some(t) = &props.max_creation_time {
            if rec.creation_time > *t {
                keep = false;
            }
        }
        if let Some(v) = &props.creator_user_id {
            if !crate::store::contains_i64(v, rec.creator_user_id) {
                keep = false;
            }
        }
        if let Some(v) = &props.tournament_id {
            if !crate::store::contains_i64(v, rec.key.tournament_id) {
                keep = false;
            }
        }
        if let Some(b) = &props.active {
            if rec.payload.active != *b {
                keep = false;
            }
        }
        if keep && props.only_recent {
            keep = db.tournament_memberships.is_current(i);
        }
        if keep {
            let rec = &db.tournament_memberships.rows[i];
            out.push(
                TournamentMembership {
                    tournament_membership_id: rec.id,
                    creation_time: rec.creation_time,
                    creator_user_id: rec.creator_user_id,
                    tournament_id: rec.key.tournament_id,
                    active: rec.payload.active,
                },
            );
        }
        i = i + 1;
    }
    out
}

// ---------------------------------------------------------------------------
// Listing current memberships of a tournament.
// ---------------------------------------------------------------------------

/// The current membership versions of a tournament, in log order, over the
/// first `n` rows.
pub open spec fn recent_memberships_upto(
    rows: Seq<Record<TournamentMembershipPayload>>,
    tournament_id: i64,
    n: int,
) -> Seq<TournamentMembership>
    decreases n,
{
    if n <= 0 {
        Seq::empty()
    } else {
        let p = recent_memberships_upto(rows, tournament_id, n - 1);
        if rows[n - 1].key.tournament_id == tournament_id && is_current_at(rows, n - 1) {
            p.push(spec_tournament_membership(rows[n - 1]))
        } else {
            p
        }
    }
}

pub open spec fn recent_memberships_spec(
    rows: Seq<Record<TournamentMembershipPayload>>,
    tournament_id: i64,
) -> Seq<TournamentMembership> {
    recent_memberships_upto(rows, tournament_id, rows.len() as int)
}

/// All current membership versions of a tournament (one per user), in log
/// order and regardless of the active flag.
pub fn get_recent_by_tournament(db: &Db, tournament_id: i64) -> (r: Vec<TournamentMembership>)
    ensures
        r@ == recent_memberships_spec(db.tournament_memberships.rows@, tournament_id),
{
    let n = db.tournament_memberships.rows.len();
    let mut out: Vec<TournamentMembership> = Vec::new();
    let mut i: usize = 0;
    while i < n
        invariant
            i <= n,
            n == db.tournament_memberships.rows@.len(),
            out@ == recent_memberships_upto(db.tournament_memberships.rows@, tournament_id, i as int),
        decreases n - i,
    {
        let rec = &db.tournament_memberships.rows[i];
        if rec.key.tournament_id == tournament_id && db.tournament_memberships.is_current(i) {
            out.push(
                TournamentMembership {
                    tournament_membership_id: rec.id,
                    creation_time: rec.creation_time,
                    creator_user_id: rec.creator_user_id,
                    tournament_id: rec.key.tournament_id,
                    active: rec.payload.active,
                },
            );
        }
        i = i + 1;
    }
    out
}

// ---------------------------------------------------------------------------
// The currently-active member set.
// ---------------------------------------------------------------------------

/// Whether row `i` is a current, active membership of `tournament_id`.
pub open spec fn active_member_at(
    rows: Seq<Record<TournamentMembershipPayload>>,
    tournament_id: i64,
    i: int,
) -> bool {
    &&& 0 <= i < rows.len()
    &&& rows[i].key.tournament_id == tournament_id
    &&& rows[i].payload.active
    &&& is_current_at(rows, i)
}

/// The user ids of the currently-active members, in log order, over the
/// first `n` rows.
pub open spec fn active_member_ids_upto(
    rows: Seq<Record<TournamentMembershipPayload>>,
    tournament_id: i64,
    n: int,
) -> Seq<i64>
    decreases n,
{
    if n <= 0 {
        Seq::empty()
    } else {
        let p = active_member_ids_upto(rows, tournament_id, n - 1);
        if rows[n - 1].key.tournament_id == tournament_id && rows[n - 1].payload.active
            && is_current_at(rows, n - 1) {
            p.push(rows[n - 1].key.user_id)
        } else {
            p
        }
    }
}

/// The user ids of the users whose current membership in `tournament_id` is
/// active: the members a round advancement must auto-fill and target.
pub open spec fn active_member_ids_spec(
    rows: Seq<Record<TournamentMembershipPayload>>,
    tournament_id: i64,
) -> Seq<i64> {
    active_member_ids_upto(rows, tournament_id, rows.len() as int)
}

/// The user ids of the currently-active members of a tournament.
pub fn get_recent_active_user_ids(db: &Db, tournament_id: i64) -> (r: Vec<i64>)
    ensures
        r@ == active_member_ids_spec(db.tournament_memberships.rows@, tournament_id),
{
    let n = db.tournament_memberships.rows.len();
    let mut out: Vec<i64> = Vec::new();
    let mut i: usize = 0;
    while i < n
        invariant
            i <= n,
            n == db.tournament_memberships.rows@.len(),
            out@ == active_member_ids_upto(db.tournament_memberships.rows@, tournament_id, i as int),
        decreases n - i,
    {
        let rec = &db.tournament_memberships.rows[i];
        if rec.key.tournament_id == tournament_id && rec.payload.active
            && db.tournament_memberships.is_current(i) {
            out.push(rec.key.user_id);
        }
        i = i + 1;
    }
    out
}

/// A listed user id `uid` has an origin among the first `n` rows: a current,
/// active membership row of the tournament carrying that user id.
pub open spec fn has_member_origin(
    rows: Seq<Record<TournamentMembershipPayload>>,
    tournament_id: i64,
    n: int,
    uid: i64,
) -> bool {
    exists|i: int|
        0 <= i < n && #[trigger] active_member_at(rows, tournament_id, i) && rows[i].key.user_id
            == uid
}

proof fn lemma_origin_mono(
    rows: Seq<Record<TournamentMembershipPayload>>,
    tournament_id: i64,
    n1: int,
    n2: int,
    uid: i64,
)
    requires
        n1 <= n2,
        has_member_origin(rows, tournament_id, n1, uid),
    ensures
        has_member_origin(rows, tournament_id, n2, uid),
{
    let i = choose|i: int|
        0 <= i < n1 && #[trigger] active_member_at(rows, tournament_id, i) && rows[i].key.user_id
            == uid;
    assert(active_member_at(rows, tournament_id, i));
}

/// Every listed active member id originates from a current, active
/// membership row, and — when all membership keys use a zero round component,
/// as the database invariant guarantees — no user id is listed twice.
pub proof fn lemma_active_ids_wf(
    rows: Seq<Record<TournamentMembershipPayload>>,
    tournament_id: i64,
    n: int,
)
    requires
        0 <= n <= rows.len(),
        forall|i: int| 0 <= i < rows.len() ==> (#[trigger] rows[i]).key.year == 0,
    ensures
        forall|k: int|
            0 <= k < active_member_ids_upto(rows, tournament_id, n).len()
                ==> #[trigger] has_member_origin(
                rows,
                tournament_id,
                n,
                active_member_ids_upto(rows, tournament_id, n)[k],
            ),
        forall|k1: int, k2: int|
            0 <= k1 < k2 < active_member_ids_upto(rows, tournament_id, n).len()
                ==> active_member_ids_upto(rows, tournament_id, n)[k1] != active_member_ids_upto(
                rows,
                tournament_id,
                n,
            )[k2],
    decreases n,
{
    if n > 0 {
        lemma_active_ids_wf(rows, tournament_id, n - 1);
        let p = active_member_ids_upto(rows, tournament_id, n - 1);
        let q = active_member_ids_upto(rows, tournament_id, n);
        if rows[n - 1].key.tournament_id == tournament_id && rows[n - 1].payload.active
            && is_current_at(rows, n - 1) {
            assert(active_member_at(rows, tournament_id, n - 1));
            let uid = rows[n - 1].key.user_id;
            assert forall|k: int| 0 <= k < q.len() implies #[trigger] has_member_origin(
                rows,
                tournament_id,
                n,
                q[k],
            ) by {
                if k < p.len() {
                    assert(q[k] == p[k]);
                    assert(has_member_origin(rows, tournament_id, n - 1, p[k]));
                    lemma_origin_mono(rows, tournament_id, n - 1, n, p[k]);
                } else {
                    assert(q[k] == uid);
                    assert(has_member_origin(rows, tournament_id, n, uid));
                }
            }
            assert forall|k1: int, k2: int| 0 <= k1 < k2 < q.len() implies q[k1] != q[k2] by {
                if k2 == q.len() - 1 {
                    assert(has_member_origin(rows, tournament_id, n - 1, p[k1]));
                    let i = choose|i: int|
                        0 <= i < n - 1 && #[trigger] active_member_at(rows, tournament_id, i)
                            && rows[i].key.user_id == p[k1];
                    if p[k1] == uid {
                        assert(rows[i].key == member_key(tournament_id, uid));
                        assert(rows[n - 1].key == member_key(tournament_id, uid));
                        assert(!is_current_at(rows, i));
                    }
                }
            }
        } else {
            assert(q == p);
            assert forall|k: int| 0 <= k < q.len() implies #[trigger] has_member_origin(
                rows,
                tournament_id,
                n,
                q[k],
            ) by {
                assert(q[k] == p[k]);
                assert(has_member_origin(rows, tournament_id, n - 1, p[k]));
                lemma_origin_mono(rows, tournament_id, n - 1, n, p[k]);
            }
        }
    }
}

/// Every current, active membership row is listed.
pub proof fn lemma_active_ids_complete(
    rows: Seq<Record<TournamentMembershipPayload>>,
    tournament_id: i64,
    n: int,
    i: int,
)
    requires
        0 <= i < n <= rows.len(),
        active_member_at(rows, tournament_id, i),
    ensures
        active_member_ids_upto(rows, tournament_id, n).contains(rows[i].key.user_id),
    decreases n,
{
    let q = active_member_ids_upto(rows, tournament_id, n);
    if n - 1 == i {
        assert(q.last() == rows[i].key.user_id);
    } else {
        lemma_active_ids_complete(rows, tournament_id, n - 1, i);
        let p = active_member_ids_upto(rows, tournament_id, n - 1);
        let k = choose|k: int| 0 <= k < p.len() && p[k] == rows[i].key.user_id;
        assert(q[k] == rows[i].key.user_id);
    }
}

/// A user's current membership lookup succeeds exactly on the rows the
/// active-member list is built from: if the lookup yields an active
/// membership, the user is listed, and every listed user's lookup yields an
/// active membership.
pub proof fn lemma_active_ids_vs_current(db: Db, tournament_id: i64)
    requires
        db.wf(),
    ensures
        forall|uid: i64|
            (#[trigger] membership_current_spec(db, tournament_id, uid) matches Some(m)
                && m.active) ==> active_member_ids_spec(
                db.tournament_memberships.rows@,
                tournament_id,
            ).contains(uid),
        forall|k: int|
            0 <= k < active_member_ids_spec(db.tournament_memberships.rows@, tournament_id).len()
                ==> (membership_current_spec(
                db,
                tournament_id,
                #[trigger] active_member_ids_spec(db.tournament_memberships.rows@, tournament_id)[k],
            ) matches Some(m) && m.active),
{
    let rows = db.tournament_memberships.rows@;
    let ids = active_member_ids_spec(rows, tournament_id);
    assert forall|uid: i64|
        (#[trigger] membership_current_spec(db, tournament_id, uid) matches Some(m)
            && m.active) implies ids.contains(uid) by {
        crate::store::lemma_latest_occurs(rows, member_key(tournament_id, uid));
        let i = choose|i: int|
            {
                &&& 0 <= i < rows.len()
                &&& rows[i] == latest_for_key(rows, member_key(tournament_id, uid))->Some_0
                &&& rows[i].key == member_key(tournament_id, uid)
                &&& is_current_at(rows, i)
            };
        assert(active_member_at(rows, tournament_id, i));
        lemma_active_ids_complete(rows, tournament_id, rows.len() as int, i);
    }
    assert forall|k: int| 0 <= k < ids.len() implies (membership_current_spec(
        db,
        tournament_id,
        #[trigger] ids[k],
    ) matches Some(m) && m.active) by {
        lemma_active_ids_wf(rows, tournament_id, rows.len() as int);
        assert(has_member_origin(rows, tournament_id, rows.len() as int, ids[k]));
        let i = choose|i: int|
            0 <= i < rows.len() && #[trigger] active_member_at(rows, tournament_id, i)
                && rows[i].key.user_id == ids[k];
        assert(rows[i].key == member_key(tournament_id, ids[k]));
        lemma_latest_at(rows, member_key(tournament_id, ids[k]), i);
    }
}

} // verus!
