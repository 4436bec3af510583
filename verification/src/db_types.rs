//! Entity types of the tournament log and the aggregate database.
//!
//! Each entity is a flat row type mirroring one append-only table, together
//! with the payload stored in its `VersionedEntityStore`.  The `Db` struct
//! aggregates the six tables and carries the global well-formedness
//! invariant: valid tournament parameters, rounds within bounds, and no
//! membership of a creator in their own tournament.

use vstd::prelude::*;

use crate::store::GroupKey;
use crate::store::Record;
use crate::store::VersionedEntityStore;
use crate::store::latest_for_key;

verus! {

// ---------------------------------------------------------------------------
// Payloads: the entity columns beyond id, creation time, creator and key.
// ---------------------------------------------------------------------------

/// Immutable creation-time parameters of a tournament.
#[derive(Clone, Copy, PartialEq, Eq, Structural, Debug)]
pub struct TournamentPayload {
    pub baseline_demand: i64,
    pub incentive_multiplier: i64,
    pub incentive_start_year: i64,
    pub max_years: i64,
}

/// Display title and archived/active status of a tournament.
#[derive(Debug)]
pub struct TournamentDataPayload {
    pub title: String,
    pub active: bool,
}

/// The round a tournament is currently on.
#[derive(Clone, Copy, PartialEq, Eq, Structural, Debug)]
pub struct TournamentYearPayload {
    pub current_year: i64,
}

/// Whether a user is presently a member of a tournament.
#[derive(Clone, Copy, PartialEq, Eq, Structural, Debug)]
pub struct TournamentMembershipPayload {
    pub active: bool,
}

/// A member's numeric value for one round.
#[derive(Clone, Copy, PartialEq, Eq, Structural, Debug)]
pub struct TournamentSubmissionPayload {
    pub amount: i64,
    pub autogenerated: bool,
}

/// The computed target demand for one member and round.
#[derive(Clone, Copy, PartialEq, Eq, Structural, Debug)]
pub struct TournamentYearDemandPayload {
    pub demand: i64,
}

// ---------------------------------------------------------------------------
// Flat row types, one per table.
// ---------------------------------------------------------------------------

#[derive(Clone, Copy, PartialEq, Eq, Structural, Debug)]
pub struct Tournament {
    pub tournament_id: i64,
    pub creation_time: i64,
    pub creator_user_id: i64,
    pub baseline_demand: i64,
    pub incentive_multiplier: i64,
    pub incentive_start_year: i64,
    pub max_years: i64,
}

#[derive(Clone, Debug)]
pub struct TournamentData {
    pub tournament_data_id: i64,
    pub creation_time: i64,
    pub creator_user_id: i64,
    pub tournament_id: i64,
    pub title: String,
    pub active: bool,
}

#[derive(Clone, Copy, PartialEq, Eq, Structural, Debug)]
pub struct TournamentYear {
    pub tournament_year_id: i64,
    pub creation_time: i64,
    pub creator_user_id: i64,
    pub tournament_id: i64,
    pub current_year: i64,
}

#[derive(Clone, Copy, PartialEq, Eq, Structural, Debug)]
pub struct TournamentMembership {
    pub tournament_membership_id: i64,
    pub creation_time: i64,
    pub creator_user_id: i64,
    pub tournament_id: i64,
    pub active: bool,
}

#[derive(Clone, Copy, PartialEq, Eq, Structural, Debug)]
pub struct TournamentSubmission {
    pub tournament_submission_id: i64,
    pub creation_time: i64,
    pub creator_user_id: i64,
    pub tournament_id: i64,
    pub year: i64,
    pub amount: i64,
    pub autogenerated: bool,
}

#[derive(Clone, Copy, PartialEq, Eq, Structural, Debug)]
pub struct TournamentYearDemand {
    pub tournament_year_demand_id: i64,
    pub creation_time: i64,
    pub user_id: i64,
    pub tournament_id: i64,
    pub year: i64,
    pub demand: i64,
}

// ---------------------------------------------------------------------------
// Grouping keys.
// ---------------------------------------------------------------------------

/// Key of entities grouped by tournament alone (data, year, and the
/// tournament row itself, keyed by its own identifier).
pub open spec fn tournament_key(tournament_id: i64) -> GroupKey {
    GroupKey { tournament_id, user_id: 0, year: 0 }
}

/// Key of entities grouped by tournament and user (memberships).
pub open spec fn member_key(tournament_id: i64, user_id: i64) -> GroupKey {
    GroupKey { tournament_id, user_id, year: 0 }
}

/// Key of entities grouped by tournament, user and round (submissions,
/// demands).
pub open spec fn round_key(tournament_id: i64, user_id: i64, year: i64) -> GroupKey {
    GroupKey { tournament_id, user_id, year }
}

// ---------------------------------------------------------------------------
// Flat views of records.
// ---------------------------------------------------------------------------

pub open spec fn spec_tournament(r: Record<TournamentPayload>) -> Tournament {
    Tournament {
        tournament_id: r.id,
        creation_time: r.creation_time,
        creator_user_id: r.creator_user_id,
        baseline_demand: r.payload.baseline_demand,
        incentive_multiplier: r.payload.incentive_multiplier,
        incentive_start_year: r.payload.incentive_start_year,
        max_years: r.payload.max_years,
    }
}

pub open spec fn spec_tournament_data(r: Record<TournamentDataPayload>) -> TournamentData {
    TournamentData {
        tournament_data_id: r.id,
        creation_time: r.creation_time,
        creator_user_id: r.creator_user_id,
        tournament_id: r.key.tournament_id,
        title: r.payload.title,
        active: r.payload.active,
    }
}

pub open spec fn spec_tournament_year(r: Record<TournamentYearPayload>) -> TournamentYear {
    TournamentYear {
        tournament_year_id: r.id,
        creation_time: r.creation_time,
        creator_user_id: r.creator_user_id,
        tournament_id: r.key.tournament_id,
        current_year: r.payload.current_year,
    }
}

pub open spec fn spec_tournament_membership(r: Record<TournamentMembershipPayload>)
    -> TournamentMembership {
    TournamentMembership {
        tournament_membership_id: r.id,
        creation_time: r.creation_time,
        creator_user_id: r.creator_user_id,
        tournament_id: r.key.tournament_id,
        active: r.payload.active,
    }
}

pub open spec fn spec_tournament_submission(r: Record<TournamentSubmissionPayload>)
    -> TournamentSubmission {
    TournamentSubmission {
        tournament_submission_id: r.id,
        creation_time: r.creation_time,
        creator_user_id: r.creator_user_id,
        tournament_id: r.key.tournament_id,
        year: r.key.year,
        amount: r.payload.amount,
        autogenerated: r.payload.autogenerated,
    }
}

pub open spec fn spec_tournament_year_demand(r: Record<TournamentYearDemandPayload>)
    -> TournamentYearDemand {
    TournamentYearDemand {
        tournament_year_demand_id: r.id,
        creation_time: r.creation_time,
        user_id: r.key.user_id,
        tournament_id: r.key.tournament_id,
        year: r.key.year,
        demand: r.payload.demand,
    }
}

// ---------------------------------------------------------------------------
// Parameter validity.
// ---------------------------------------------------------------------------

/// Magnitude of an `i64`, as a mathematical integer.
pub open spec fn abs_i64(x: i64) -> int {
    if x >= 0 {
        x as int
    } else {
        -(x as int)
    }
}

/// What creation validates, plus the machine-limit bounds under which a
/// demand (baseline plus an incentive of magnitude at most
/// `incentive_multiplier`) always fits in an `i64`.
pub open spec fn tournament_params_ok(p: TournamentPayload) -> bool {
    &&& p.max_years > 1
    &&& 1 < p.incentive_start_year < p.max_years
    &&& p.incentive_multiplier > i64::MIN
    &&& p.baseline_demand + abs_i64(p.incentive_multiplier) <= i64::MAX
    &&& p.baseline_demand - abs_i64(p.incentive_multiplier) >= i64::MIN
}

// ---------------------------------------------------------------------------
// The aggregate database.
// ---------------------------------------------------------------------------

/// The whole append-only database: one log per entity.
#[verifier::ext_equal]
pub struct Db {
    pub tournaments: VersionedEntityStore<TournamentPayload>,
    pub tournament_datas: VersionedEntityStore<TournamentDataPayload>,
    pub tournament_years: VersionedEntityStore<TournamentYearPayload>,
    pub tournament_memberships: VersionedEntityStore<TournamentMembershipPayload>,
    pub tournament_submissions: VersionedEntityStore<TournamentSubmissionPayload>,
    pub tournament_year_demands: VersionedEntityStore<TournamentYearDemandPayload>,
}

/// The tournament with identifier `tournament_id` in a tournament log.
pub open spec fn tournament_in(rows: Seq<Record<TournamentPayload>>, tournament_id: i64)
    -> Option<Tournament> {
    match latest_for_key(rows, tournament_key(tournament_id)) {
        Some(r) => Some(spec_tournament(r)),
        None => None,
    }
}

impl Db {
    /// Global well-formedness.
    ///
    /// Beyond the per-log ordering invariants, this states the business
    /// invariants of the data model: every tournament row is keyed by its own
    /// identifier and carries valid parameters; every round row belongs to an
    /// existing tournament and lies between 0 and that tournament's round
    /// cap; and every membership row belongs to an existing tournament whose
    /// creator is not the member.
    pub open spec fn wf(self) -> bool {
        &&& self.tournaments.wf()
        &&& self.tournament_datas.wf()
        &&& self.tournament_years.wf()
        &&& self.tournament_memberships.wf()
        &&& self.tournament_submissions.wf()
        &&& self.tournament_year_demands.wf()
        &&& forall|i: int|
            0 <= i < self.tournaments.rows@.len() ==> {
                let r = #[trigger] self.tournaments.rows@[i];
                r.key == tournament_key(r.id) && tournament_params_ok(r.payload)
            }
        &&& forall|i: int|
            0 <= i < self.tournament_years.rows@.len() ==> {
                let r = #[trigger] self.tournament_years.rows@[i];
                &&& r.key.user_id == 0
                &&& r.key.year == 0
                &&& tournament_in(self.tournaments.rows@, r.key.tournament_id) matches Some(t)
                    && 0 <= r.payload.current_year <= t.max_years
            }
        &&& forall|i: int|
            0 <= i < self.tournament_memberships.rows@.len() ==> {
                let r = #[trigger] self.tournament_memberships.rows@[i];
                &&& r.key.year == 0
                &&& r.creator_user_id == r.key.user_id
                &&& tournament_in(self.tournaments.rows@, r.key.tournament_id) matches Some(t)
                    && t.creator_user_id != r.key.user_id
            }
        &&& forall|i: int|
            0 <= i < self.tournament_submissions.rows@.len() ==> {
                let s = #[trigger] self.tournament_submissions.rows@[i];
                s.payload.autogenerated ==> (latest_for_key(
                    self.tournament_years.rows@,
                    tournament_key(s.key.tournament_id),
                ) matches Some(y) && s.key.year < y.payload.current_year)
            }
    }

    /// An empty database.
    pub fn new() -> (r: Db)
        ensures
            r.wf(),
            r.tournaments.rows@ =~= Seq::<Record<TournamentPayload>>::empty(),
            r.tournament_datas.rows@ =~= Seq::<Record<TournamentDataPayload>>::empty(),
            r.tournament_years.rows@ =~= Seq::<Record<TournamentYearPayload>>::empty(),
            r.tournament_memberships.rows@ =~= Seq::<Record<TournamentMembershipPayload>>::empty(),
            r.tournament_submissions.rows@ =~= Seq::<Record<TournamentSubmissionPayload>>::empty(),
            r.tournament_year_demands.rows@ =~= Seq::<Record<TournamentYearDemandPayload>>::empty(),
            r.tournaments.next_id == 0,
            r.tournament_datas.next_id == 0,
            r.tournament_years.next_id == 0,
            r.tournament_memberships.next_id == 0,
            r.tournament_submissions.next_id == 0,
            r.tournament_year_demands.next_id == 0,
    {
        Db {
            tournaments: VersionedEntityStore::new(),
            tournament_datas: VersionedEntityStore::new(),
            tournament_years: VersionedEntityStore::new(),
            tournament_memberships: VersionedEntityStore::new(),
            tournament_submissions: VersionedEntityStore::new(),
            tournament_year_demands: VersionedEntityStore::new(),
        }
    }
}

// ---------------------------------------------------------------------------
// Current-version lookups, as specifications.
// ---------------------------------------------------------------------------

pub open spec fn tournament_by_id_spec(db: Db, tournament_id: i64) -> Option<Tournament> {
    tournament_in(db.tournaments.rows@, tournament_id)
}

/// A tournament that can be looked up has its identifier below the log's
/// `next_id`, and the looked-up row reports that identifier.
pub proof fn lemma_tournament_id_bound(db: Db, x: i64)
    requires
        db.wf(),
        tournament_by_id_spec(db, x) is Some,
    ensures
        0 <= x < db.tournaments.next_id,
        tournament_by_id_spec(db, x)->Some_0.tournament_id == x,
{
    crate::store::lemma_latest_occurs(db.tournaments.rows@, tournament_key(x));
    let i = choose|i: int|
        {
            &&& 0 <= i < db.tournaments.rows@.len()
            &&& db.tournaments.rows@[i] == latest_for_key(
                db.tournaments.rows@,
                tournament_key(x),
            )->Some_0
            &&& db.tournaments.rows@[i].key == tournament_key(x)
            &&& crate::store::is_current_at(db.tournaments.rows@, i)
        };
    assert(db.tournaments.rows@[i].key == tournament_key(db.tournaments.rows@[i].id));
}

/// A current round, when one exists, lies between 0 and the round cap of its
/// tournament, which exists.
pub proof fn lemma_year_current_bounds(db: Db, x: i64)
    requires
        db.wf(),
        year_current_spec(db, x) is Some,
    ensures
        tournament_by_id_spec(db, x) matches Some(t) && 0 <= year_current_spec(
            db,
            x,
        )->Some_0.current_year <= t.max_years,
{
    crate::store::lemma_latest_occurs(db.tournament_years.rows@, tournament_key(x));
    let i = choose|i: int|
        {
            &&& 0 <= i < db.tournament_years.rows@.len()
            &&& db.tournament_years.rows@[i] == latest_for_key(
                db.tournament_years.rows@,
                tournament_key(x),
            )->Some_0
            &&& db.tournament_years.rows@[i].key == tournament_key(x)
            &&& crate::store::is_current_at(db.tournament_years.rows@, i)
        };
    assert({
        let r = db.tournament_years.rows@[i];
        tournament_in(db.tournaments.rows@, r.key.tournament_id) matches Some(t) && 0
            <= r.payload.current_year <= t.max_years
    });
}

/// A tournament that can be looked up carries valid parameters, because
/// every stored tournament row does.
pub proof fn lemma_tournament_params(db: Db, x: i64)
    requires
        db.wf(),
        tournament_by_id_spec(db, x) is Some,
    ensures
        ({
            let t = tournament_by_id_spec(db, x)->Some_0;
            &&& t.max_years > 1
            &&& 1 < t.incentive_start_year < t.max_years
            &&& t.incentive_multiplier > i64::MIN
            &&& t.baseline_demand + abs_i64(t.incentive_multiplier) <= i64::MAX
            &&& t.baseline_demand - abs_i64(t.incentive_multiplier) >= i64::MIN
        }),
{
    crate::store::lemma_latest_occurs(db.tournaments.rows@, tournament_key(x));
    let i = choose|i: int|
        {
            &&& 0 <= i < db.tournaments.rows@.len()
            &&& db.tournaments.rows@[i] == latest_for_key(
                db.tournaments.rows@,
                tournament_key(x),
            )->Some_0
            &&& db.tournaments.rows@[i].key == tournament_key(x)
            &&& crate::store::is_current_at(db.tournaments.rows@, i)
        };
    assert(tournament_params_ok(db.tournaments.rows@[i].payload));
}

/// Appending one tournament row keyed by its own fresh identifier preserves
/// the global invariant and changes no other tournament's lookup.
pub proof fn lemma_wf_after_tournament_append(pre: Db, post: Db, rec: Record<TournamentPayload>)
    requires
        pre.wf(),
        rec.id == pre.tournaments.next_id,
        rec.key == tournament_key(rec.id),
        tournament_params_ok(rec.payload),
        post.tournaments.wf(),
        post.tournaments.rows@ == pre.tournaments.rows@.push(rec),
        post.tournament_datas == pre.tournament_datas,
        post.tournament_years == pre.tournament_years,
        post.tournament_memberships == pre.tournament_memberships,
        post.tournament_submissions == pre.tournament_submissions,
        post.tournament_year_demands == pre.tournament_year_demands,
    ensures
        post.wf(),
        forall|x: i64|
            x != rec.id ==> #[trigger] tournament_by_id_spec(post, x) == tournament_by_id_spec(
                pre,
                x,
            ),
        tournament_by_id_spec(post, rec.id) == Some(spec_tournament(rec)),
{
    let pre_rows = pre.tournaments.rows@;
    let post_rows = post.tournaments.rows@;
    assert forall|x: i64| x != rec.id implies #[trigger] tournament_by_id_spec(post, x)
        == tournament_by_id_spec(pre, x) by {
        assert(post_rows =~= pre_rows + seq![rec]);
        crate::store::lemma_latest_append(pre_rows, seq![rec], tournament_key(x));
    }
    assert(latest_for_key(post_rows, tournament_key(rec.id)) == Some(rec));
    assert forall|i: int| 0 <= i < post.tournament_years.rows@.len() implies {
        let r = #[trigger] post.tournament_years.rows@[i];
        &&& r.key.user_id == 0
        &&& r.key.year == 0
        &&& tournament_in(post.tournaments.rows@, r.key.tournament_id) matches Some(t)
            && 0 <= r.payload.current_year <= t.max_years
    } by {
        let r = post.tournament_years.rows@[i];
        assert(pre.tournament_years.rows@[i] == r);
        lemma_tournament_id_bound(pre, r.key.tournament_id);
        assert(tournament_by_id_spec(post, r.key.tournament_id) == tournament_by_id_spec(
            pre,
            r.key.tournament_id,
        ));
    }
    assert forall|i: int| 0 <= i < post.tournament_memberships.rows@.len() implies {
        let r = #[trigger] post.tournament_memberships.rows@[i];
        &&& r.key.year == 0
        &&& r.creator_user_id == r.key.user_id
        &&& tournament_in(post.tournaments.rows@, r.key.tournament_id) matches Some(t)
            && t.creator_user_id != r.key.user_id
    } by {
        let r = post.tournament_memberships.rows@[i];
        assert(pre.tournament_memberships.rows@[i] == r);
        lemma_tournament_id_bound(pre, r.key.tournament_id);
        assert(tournament_by_id_spec(post, r.key.tournament_id) == tournament_by_id_spec(
            pre,
            r.key.tournament_id,
        ));
    }
}

pub open spec fn data_current_spec(db: Db, tournament_id: i64) -> Option<TournamentData> {
    match latest_for_key(db.tournament_datas.rows@, tournament_key(tournament_id)) {
        Some(r) => Some(spec_tournament_data(r)),
        None => None,
    }
}

pub open spec fn year_current_spec(db: Db, tournament_id: i64) -> Option<TournamentYear> {
    match latest_for_key(db.tournament_years.rows@, tournament_key(tournament_id)) {
        Some(r) => Some(spec_tournament_year(r)),
        None => None,
    }
}

pub open spec fn membership_current_spec(db: Db, tournament_id: i64, user_id: i64)
    -> Option<TournamentMembership> {
    match latest_for_key(db.tournament_memberships.rows@, member_key(tournament_id, user_id)) {
        Some(r) => Some(spec_tournament_membership(r)),
        None => None,
    }
}

pub open spec fn submission_current_spec(db: Db, tournament_id: i64, user_id: i64, year: i64)
    -> Option<TournamentSubmission> {
    match latest_for_key(db.tournament_submissions.rows@, round_key(tournament_id, user_id, year)) {
        Some(r) => Some(spec_tournament_submission(r)),
        None => None,
    }
}

pub open spec fn demand_current_spec(db: Db, tournament_id: i64, user_id: i64, year: i64)
    -> Option<TournamentYearDemand> {
    match latest_for_key(db.tournament_year_demands.rows@, round_key(tournament_id, user_id, year)) {
        Some(r) => Some(spec_tournament_year_demand(r)),
        None => None,
    }
}

} // verus!
