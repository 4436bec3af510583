//! The lifecycle coordinator: caller-facing operations over the append-only
//! database.  Every operation validates its business rules and reserves
//! identifier capacity before the first append, so a failed operation never
//! leaves partial state behind.

use vstd::prelude::*;

use crate::db_types::Db;
use crate::db_types::Tournament;
use crate::db_types::TournamentDataPayload;
use crate::db_types::TournamentMembershipPayload;
use crate::db_types::TournamentSubmissionPayload;
use crate::db_types::TournamentPayload;
use crate::db_types::TournamentYearPayload;
use crate::db_types::data_current_spec;
use crate::db_types::lemma_tournament_params;
use crate::db_types::member_key;
use crate::db_types::membership_current_spec;
use crate::db_types::round_key;
use crate::db_types::spec_tournament;
use crate::db_types::spec_tournament_data;
use crate::db_types::spec_tournament_membership;
use crate::db_types::spec_tournament_submission;
use crate::db_types::spec_tournament_year;
use crate::db_types::spec_tournament_year_demand;
use crate::db_types::submission_current_spec;
use crate::db_types::demand_current_spec;
use crate::db_types::tournament_by_id_spec;
use crate::db_types::tournament_key;
use crate::db_types::abs_i64;
use crate::db_types::year_current_spec;
use crate::incentive::compute_demand;
use crate::incentive::demand_ok;
use crate::request::TournamentDataNewProps;
use crate::request::TournamentMembershipNewProps;
use crate::request::TournamentNewProps;
use crate::request::TournamentSubmissionNewProps;
use crate::response::AppError;
use crate::response;
use crate::request::TournamentYearNewProps;
use crate::store::GroupKey;
use crate::store::Record;
use crate::store::is_current_at;
use crate::store::latest_for_key;
use crate::store::lemma_latest_append;
use crate::store::lemma_latest_at;
use crate::store::lemma_latest_occurs;
use crate::store::lemma_len_le_next;
use crate::tournament_data_service;
use crate::tournament_membership_service;
use crate::tournament_service;
use crate::tournament_submission_service;
use crate::tournament_year_demand_service;
use crate::tournament_year_service;

verus! {

// ---------------------------------------------------------------------------
// The authentication gate boundary.
// ---------------------------------------------------------------------------

/// The failure kinds the external authentication gate reports when asked to
/// resolve an API key to a user identity.  `Other` stands for any kind the
/// coordinator does not map specially.
#[derive(Clone, Copy, PartialEq, Eq, Structural, Debug)]
pub enum AuthError {
    ApiKeyNonexistent,
    ApiKeyUnauthorized,
    InternalServerError,
    MethodNotAllowed,
    BadRequest,
    Network,
    Other,
}

/// How a gate failure surfaces to the caller.
pub open spec fn auth_err_spec(e: AuthError) -> AppError {
    match e {
        AuthError::ApiKeyNonexistent => AppError::Unauthorized,
        AuthError::ApiKeyUnauthorized => AppError::Unauthorized,
        AuthError::InternalServerError => AppError::InternalServerError,
        AuthError::MethodNotAllowed => AppError::InternalServerError,
        AuthError::BadRequest => AppError::InternalServerError,
        AuthError::Network => AppError::InternalServerError,
        AuthError::Other => AppError::Unknown,
    }
}

/// Maps a failure of the authentication gate to the caller-facing error: a
/// missing or invalid key surfaces as `Unauthorized`, a failure inside the
/// gate as `InternalServerError`, and any unmapped kind as `Unknown`.
pub fn report_auth_err(e: AuthError) -> (r: AppError)
    ensures
        r == auth_err_spec(e),
{
    match e {
        AuthError::ApiKeyNonexistent => AppError::Unauthorized,
        AuthError::ApiKeyUnauthorized => AppError::Unauthorized,
        AuthError::InternalServerError => AppError::InternalServerError,
        AuthError::MethodNotAllowed => AppError::InternalServerError,
        AuthError::BadRequest => AppError::InternalServerError,
        AuthError::Network => AppError::InternalServerError,
        AuthError::Other => AppError::Unknown,
    }
}

// ---------------------------------------------------------------------------
// Hydration: pairing an entity with its referenced tournament.
// ---------------------------------------------------------------------------

pub open spec fn resp_tournament_spec(t: Tournament) -> response::Tournament {
    response::Tournament {
        tournament_id: t.tournament_id,
        creation_time: t.creation_time,
        creator_user_id: t.creator_user_id,
        baseline_demand: t.baseline_demand,
        incentive_multiplier: t.incentive_multiplier,
        incentive_start_year: t.incentive_start_year,
        max_years: t.max_years,
    }
}

pub fn fill_tournament(tournament: Tournament) -> (r: response::Tournament)
    ensures
        r == resp_tournament_spec(tournament),
{
    response::Tournament {
        tournament_id: tournament.tournament_id,
        creation_time: tournament.creation_time,
        creator_user_id: tournament.creator_user_id,
        baseline_demand: tournament.baseline_demand,
        incentive_multiplier: tournament.incentive_multiplier,
        incentive_start_year: tournament.incentive_start_year,
        max_years: tournament.max_years,
    }
}

pub open spec fn fill_data_spec(db: Db, d: crate::db_types::TournamentData) -> Result<
    response::TournamentData,
    AppError,
> {
    match tournament_by_id_spec(db, d.tournament_id) {
        Some(t) => Ok(
            response::TournamentData {
                tournament_data_id: d.tournament_data_id,
                creation_time: d.creation_time,
                creator_user_id: d.creator_user_id,
                tournament: resp_tournament_spec(t),
                title: d.title,
                active: d.active,
            },
        ),
        None => Err(AppError::TournamentNonexistent),
    }
}

pub fn fill_tournament_data(db: &Db, tournament_data: crate::db_types::TournamentData) -> (r:
    Result<response::TournamentData, AppError>)
    ensures
        r == fill_data_spec(*db, tournament_data),
{
    match tournament_service::get_by_tournament_id(db, tournament_data.tournament_id) {
        Some(t) => Ok(
            response::TournamentData {
                tournament_data_id: tournament_data.tournament_data_id,
                creation_time: tournament_data.creation_time,
                creator_user_id: tournament_data.creator_user_id,
                tournament: fill_tournament(t),
                title: tournament_data.title,
                active: tournament_data.active,
            },
        ),
        None => Err(AppError::TournamentNonexistent),
    }
}

pub open spec fn fill_year_spec(db: Db, y: crate::db_types::TournamentYear) -> Result<
    response::TournamentYear,
    AppError,
> {
    match tournament_by_id_spec(db, y.tournament_id) {
        Some(t) => Ok(
            response::TournamentYear {
                tournament_year_id: y.tournament_year_id,
                creation_time: y.creation_time,
                creator_user_id: y.creator_user_id,
                tournament: resp_tournament_spec(t),
                current_year: y.current_year,
            },
        ),
        None => Err(AppError::TournamentNonexistent),
    }
}

pub fn fill_tournament_year(db: &Db, tournament_year: crate::db_types::TournamentYear) -> (r:
    Result<response::TournamentYear, AppError>)
    ensures
        r == fill_year_spec(*db, tournament_year),
{
    match tournament_service::get_by_tournament_id(db, tournament_year.tournament_id) {
        Some(t) => Ok(
            response::TournamentYear {
                tournament_year_id: tournament_year.tournament_year_id,
                creation_time: tournament_year.creation_time,
                creator_user_id: tournament_year.creator_user_id,
                tournament: fill_tournament(t),
                current_year: tournament_year.current_year,
            },
        ),
        None => Err(AppError::TournamentNonexistent),
    }
}

pub open spec fn fill_membership_spec(db: Db, m: crate::db_types::TournamentMembership) -> Result<
    response::TournamentMembership,
    AppError,
> {
    match tournament_by_id_spec(db, m.tournament_id) {
        Some(t) => Ok(
            response::TournamentMembership {
                tournament_membership_id: m.tournament_membership_id,
                creation_time: m.creation_time,
                creator_user_id: m.creator_user_id,
                tournament: resp_tournament_spec(t),
                active: m.active,
            },
        ),
        None => Err(AppError::TournamentNonexistent),
    }
}

pub fn fill_tournament_membership(
    db: &Db,
    tournament_membership: crate::db_types::TournamentMembership,
) -> (r: Result<response::TournamentMembership, AppError>)
    ensures
        r == fill_membership_spec(*db, tournament_membership),
{
    match tournament_service::get_by_tournament_id(db, tournament_membership.tournament_id) {
        Some(t) => Ok(
            response::TournamentMembership {
                tournament_membership_id: tournament_membership.tournament_membership_id,
                creation_time: tournament_membership.creation_time,
                creator_user_id: tournament_membership.creator_user_id,
                tournament: fill_tournament(t),
                active: tournament_membership.active,
            },
        ),
        None => Err(AppError::TournamentNonexistent),
    }
}

pub open spec fn fill_submission_spec(db: Db, s: crate::db_types::TournamentSubmission) -> Result<
    response::TournamentSubmission,
    AppError,
> {
    match tournament_by_id_spec(db, s.tournament_id) {
        Some(t) => Ok(
            response::TournamentSubmission {
                tournament_submission_id: s.tournament_submission_id,
                creation_time: s.creation_time,
                creator_user_id: s.creator_user_id,
                tournament: resp_tournament_spec(t),
                amount: s.amount,
                year: s.year,
                autogenerated: s.autogenerated,
            },
        ),
        None => Err(AppError::TournamentNonexistent),
    }
}

pub fn fill_tournament_submission(
    db: &Db,
    tournament_submission: crate::db_types::TournamentSubmission,
) -> (r: Result<response::TournamentSubmission, AppError>)
    ensures
        r == fill_submission_spec(*db, tournament_submission),
{
    match tournament_service::get_by_tournament_id(db, tournament_submission.tournament_id) {
        Some(t) => Ok(
            response::TournamentSubmission {
                tournament_submission_id: tournament_submission.tournament_submission_id,
                creation_time: tournament_submission.creation_time,
                creator_user_id: tournament_submission.creator_user_id,
                tournament: fill_tournament(t),
                amount: tournament_submission.amount,
                year: tournament_submission.year,
                autogenerated: tournament_submission.autogenerated,
            },
        ),
        None => Err(AppError::TournamentNonexistent),
    }
}

pub open spec fn fill_demand_spec(db: Db, d: crate::db_types::TournamentYearDemand) -> Result<
    response::TournamentYearDemand,
    AppError,
> {
    match tournament_by_id_spec(db, d.tournament_id) {
        Some(t) => Ok(
            response::TournamentYearDemand {
                tournament_year_demand_id: d.tournament_year_demand_id,
                creation_time: d.creation_time,
                user_id: d.user_id,
                tournament: resp_tournament_spec(t),
                year: d.year,
                demand: d.demand,
            },
        ),
        None => Err(AppError::TournamentNonexistent),
    }
}

pub fn fill_tournament_year_demand(
    db: &Db,
    tournament_year_demand: crate::db_types::TournamentYearDemand,
) -> (r: Result<response::TournamentYearDemand, AppError>)
    ensures
        r == fill_demand_spec(*db, tournament_year_demand),
{
    match tournament_service::get_by_tournament_id(db, tournament_year_demand.tournament_id) {
        Some(t) => Ok(
            response::TournamentYearDemand {
                tournament_year_demand_id: tournament_year_demand.tournament_year_demand_id,
                creation_time: tournament_year_demand.creation_time,
                user_id: tournament_year_demand.user_id,
                tournament: fill_tournament(t),
                year: tournament_year_demand.year,
                demand: tournament_year_demand.demand,
            },
        ),
        None => Err(AppError::TournamentNonexistent),
    }
}

// ---------------------------------------------------------------------------
// CreateTournament.
// ---------------------------------------------------------------------------

/// What creation validates: a round cap above one, and an incentive start
/// round strictly between one and the cap.
pub open spec fn create_valid(props: TournamentNewProps) -> bool {
    &&& props.max_years > 1
    &&& 1 < props.incentive_start_year < props.max_years
}

/// Creates a tournament: validates the parameters, then appends the
/// tournament row, its first data version (active, titled) and its first
/// round row (round 0), all or nothing.
pub fn tournament_new(db: &mut Db, user_id: i64, props: TournamentNewProps, now: i64) -> (r: Result<
    response::TournamentData,
    AppError,
>)
    requires
        old(db).wf(),
        props.incentive_multiplier > i64::MIN,
        props.baseline_demand + abs_i64(props.incentive_multiplier) <= i64::MAX,
        props.baseline_demand - abs_i64(props.incentive_multiplier) >= i64::MIN,
    ensures
        final(db).wf(),
        r is Err ==> *final(db) == *old(db),
        props.max_years <= 1 ==> r == Err::<response::TournamentData, AppError>(
            AppError::TournamentMaxYearsInvalid,
        ),
        props.max_years > 1 && !(1 < props.incentive_start_year < props.max_years) ==> r
            == Err::<response::TournamentData, AppError>(
            AppError::TournamentIncentiveStartYearInvalid,
        ),
        create_valid(props) && !(old(db).tournaments.next_id < i64::MAX && old(
            db,
        ).tournament_datas.next_id < i64::MAX && old(db).tournament_years.next_id < i64::MAX) ==> r
            == Err::<response::TournamentData, AppError>(AppError::InternalServerError),
        create_valid(props) && old(db).tournaments.next_id < i64::MAX && old(
            db,
        ).tournament_datas.next_id < i64::MAX && old(db).tournament_years.next_id < i64::MAX <==> r
            is Ok,
        r matches Ok(resp) ==> ({
            let tid = old(db).tournaments.next_id;
            let trec = (Record {
                id: tid,
                creation_time: now,
                creator_user_id: user_id,
                key: tournament_key(tid),
                payload: TournamentPayload {
                    baseline_demand: props.baseline_demand,
                    incentive_multiplier: props.incentive_multiplier,
                    incentive_start_year: props.incentive_start_year,
                    max_years: props.max_years,
                },
            });
            let drec = (Record {
                id: old(db).tournament_datas.next_id,
                creation_time: now,
                creator_user_id: user_id,
                key: tournament_key(tid),
                payload: TournamentDataPayload { title: props.title, active: true },
            });
            let yrec = (Record {
                id: old(db).tournament_years.next_id,
                creation_time: now,
                creator_user_id: user_id,
                key: tournament_key(tid),
                payload: TournamentYearPayload { current_year: 0 },
            });
            &&& final(db).tournaments.rows@ == old(db).tournaments.rows@.push(trec)
            &&& final(db).tournament_datas.rows@ == old(db).tournament_datas.rows@.push(drec)
            &&& final(db).tournament_years.rows@ == old(db).tournament_years.rows@.push(yrec)
            &&& final(db).tournament_memberships == old(db).tournament_memberships
            &&& final(db).tournament_submissions == old(db).tournament_submissions
            &&& final(db).tournament_year_demands == old(db).tournament_year_demands
            &&& tournament_by_id_spec(*final(db), tid) == Some(spec_tournament(trec))
            &&& data_current_spec(*final(db), tid) == Some(spec_tournament_data(drec))
            &&& year_current_spec(*final(db), tid) == Some(spec_tournament_year(yrec))
            &&& resp == (response::TournamentData {
                tournament_data_id: drec.id,
                creation_time: now,
                creator_user_id: user_id,
                tournament: resp_tournament_spec(spec_tournament(trec)),
                title: props.title,
                active: true,
            })
        }),
{
    if props.max_years <= 1 {
        return Err(AppError::TournamentMaxYearsInvalid);
    }
    if props.incentive_start_year <= 1 || props.incentive_start_year >= props.max_years {
        return Err(AppError::TournamentIncentiveStartYearInvalid);
    }
    // Reserve identifier capacity before the first append: afterwards no
    // append can fail, so the operation is all-or-nothing.
    if db.tournaments.next_id == i64::MAX || db.tournament_datas.next_id == i64::MAX
        || db.tournament_years.next_id == i64::MAX {
        return Err(AppError::InternalServerError);
    }
    let tournament = match tournament_service::add(
        db,
        user_id,
        props.baseline_demand,
        props.incentive_multiplier,
        props.incentive_start_year,
        props.max_years,
        now,
    ) {
        Ok(t) => t,
        Err(_) => {
            return Err(AppError::InternalServerError);
        },
    };
    let tournament_data = match tournament_data_service::add(
        db,
        user_id,
        tournament.tournament_id,
        props.title,
        true,
        now,
    ) {
        Ok(d) => d,
        Err(_) => {
            return Err(AppError::InternalServerError);
        },
    };
    proof {
        // A fresh tournament has no round row yet: every round row refers to
        // a tournament whose identifier is below the fresh one.
        if year_current_spec(*db, tournament.tournament_id) is Some {
            crate::store::lemma_latest_occurs(
                db.tournament_years.rows@,
                tournament_key(tournament.tournament_id),
            );
            let i = choose|i: int|
                {
                    &&& 0 <= i < db.tournament_years.rows@.len()
                    &&& db.tournament_years.rows@[i] == crate::store::latest_for_key(
                        db.tournament_years.rows@,
                        tournament_key(tournament.tournament_id),
                    )->Some_0
                    &&& db.tournament_years.rows@[i].key == tournament_key(
                        tournament.tournament_id,
                    )
                    &&& crate::store::is_current_at(db.tournament_years.rows@, i)
                };
            assert(old(db).tournament_years.rows@[i] == db.tournament_years.rows@[i]);
            crate::db_types::lemma_tournament_id_bound(*old(db), tournament.tournament_id);
            assert(false);
        }
    }
    match tournament_year_service::add(db, user_id, tournament.tournament_id, 0, now) {
        Ok(_) => {},
        Err(_) => {
            return Err(AppError::InternalServerError);
        },
    }
    Ok(
        response::TournamentData {
            tournament_data_id: tournament_data.tournament_data_id,
            creation_time: tournament_data.creation_time,
            creator_user_id: tournament_data.creator_user_id,
            tournament: fill_tournament(tournament),
            title: tournament_data.title,
            active: tournament_data.active,
        },
    )
}

// ---------------------------------------------------------------------------
// ReviseTournamentData.
// ---------------------------------------------------------------------------

/// Revises a tournament's data: a new title and active flag, used both for
/// edits and for archiving.  Only the creator may revise; an ownership
/// failure is reported as `TournamentNonexistent`.
pub fn tournament_data_new(db: &mut Db, user_id: i64, props: TournamentDataNewProps, now: i64) -> (r:
    Result<response::TournamentData, AppError>)
    requires
        old(db).wf(),
    ensures
        final(db).wf(),
        r is Err ==> *final(db) == *old(db),
        tournament_by_id_spec(*old(db), props.tournament_id) is None ==> r == Err::<
            response::TournamentData,
            AppError,
        >(AppError::TournamentNonexistent),
        (tournament_by_id_spec(*old(db), props.tournament_id) matches Some(t) && t.creator_user_id
            != user_id) ==> r == Err::<response::TournamentData, AppError>(
            AppError::TournamentNonexistent,
        ),
        (tournament_by_id_spec(*old(db), props.tournament_id) matches Some(t) && t.creator_user_id
            == user_id) ==> (r is Ok <==> old(db).tournament_datas.next_id < i64::MAX),
        (tournament_by_id_spec(*old(db), props.tournament_id) matches Some(t) && t.creator_user_id
            == user_id && old(db).tournament_datas.next_id == i64::MAX) ==> r == Err::<
            response::TournamentData,
            AppError,
        >(AppError::InternalServerError),
        r matches Ok(resp) ==> ({
            let t = tournament_by_id_spec(*old(db), props.tournament_id)->Some_0;
            let drec = (Record {
                id: old(db).tournament_datas.next_id,
                creation_time: now,
                creator_user_id: user_id,
                key: tournament_key(props.tournament_id),
                payload: TournamentDataPayload { title: props.title, active: props.active },
            });
            &&& tournament_by_id_spec(*old(db), props.tournament_id) is Some
            &&& t.creator_user_id == user_id
            &&& final(db).tournament_datas.rows@ == old(db).tournament_datas.rows@.push(drec)
            &&& data_current_spec(*final(db), props.tournament_id) == Some(
                spec_tournament_data(drec),
            )
            &&& forall|x: i64|
                x != props.tournament_id ==> #[trigger] data_current_spec(*final(db), x)
                    == data_current_spec(*old(db), x)
            &&& final(db).tournaments == old(db).tournaments
            &&& final(db).tournament_years == old(db).tournament_years
            &&& final(db).tournament_memberships == old(db).tournament_memberships
            &&& final(db).tournament_submissions == old(db).tournament_submissions
            &&& final(db).tournament_year_demands == old(db).tournament_year_demands
            &&& resp == (response::TournamentData {
                tournament_data_id: drec.id,
                creation_time: now,
                creator_user_id: user_id,
                tournament: resp_tournament_spec(t),
                title: props.title,
                active: props.active,
            })
        }),
{
    let tournament = match tournament_service::get_by_tournament_id(db, props.tournament_id) {
        Some(t) => t,
        None => {
            return Err(AppError::TournamentNonexistent);
        },
    };
    if tournament.creator_user_id != user_id {
        return Err(AppError::TournamentNonexistent);
    }
    proof {
        crate::db_types::lemma_tournament_id_bound(*db, props.tournament_id);
    }
    let tournament_data = match tournament_data_service::add(
        db,
        user_id,
        tournament.tournament_id,
        props.title,
        props.active,
        now,
    ) {
        Ok(d) => d,
        Err(_) => {
            return Err(AppError::InternalServerError);
        },
    };
    Ok(
        response::TournamentData {
            tournament_data_id: tournament_data.tournament_data_id,
            creation_time: tournament_data.creation_time,
            creator_user_id: tournament_data.creator_user_id,
            tournament: fill_tournament(tournament),
            title: tournament_data.title,
            active: tournament_data.active,
        },
    )
}

// ---------------------------------------------------------------------------
// JoinTournament.
// ---------------------------------------------------------------------------

/// Whether a join is admissible: the tournament exists, the caller is not
/// its creator, its current data is active, and its current round is 0.
pub open spec fn join_ok(db: Db, tournament_id: i64, user_id: i64) -> bool {
    &&& tournament_by_id_spec(db, tournament_id) matches Some(t) && t.creator_user_id != user_id
    &&& data_current_spec(db, tournament_id) matches Some(d) && d.active
    &&& year_current_spec(db, tournament_id) matches Some(y) && y.current_year <= 0
}

/// Joins a tournament: appends a membership version and the joining user's
/// demand for round 0.  The creator can never join their own tournament;
/// joining is only possible before the tournament starts.
pub fn tournament_membership_new(
    db: &mut Db,
    user_id: i64,
    props: TournamentMembershipNewProps,
    now: i64,
) -> (r: Result<response::TournamentMembership, AppError>)
    requires
        old(db).wf(),
    ensures
        final(db).wf(),
        r is Err ==> *final(db) == *old(db),
        tournament_by_id_spec(*old(db), props.tournament_id) is None ==> r == Err::<
            response::TournamentMembership,
            AppError,
        >(AppError::TournamentNonexistent),
        (tournament_by_id_spec(*old(db), props.tournament_id) matches Some(t) && t.creator_user_id
            == user_id) ==> r == Err::<response::TournamentMembership, AppError>(
            AppError::TournamentMembershipInvalid,
        ),
        (tournament_by_id_spec(*old(db), props.tournament_id) matches Some(t) && t.creator_user_id
            != user_id && data_current_spec(*old(db), props.tournament_id) is None) ==> r == Err::<
            response::TournamentMembership,
            AppError,
        >(AppError::TournamentNonexistent),
        (tournament_by_id_spec(*old(db), props.tournament_id) matches Some(t) && t.creator_user_id
            != user_id && (data_current_spec(*old(db), props.tournament_id) matches Some(d)
            && !d.active)) ==> r == Err::<response::TournamentMembership, AppError>(
            AppError::TournamentArchived,
        ),
        (tournament_by_id_spec(*old(db), props.tournament_id) matches Some(t) && t.creator_user_id
            != user_id && (data_current_spec(*old(db), props.tournament_id) matches Some(d)
            && d.active) && year_current_spec(*old(db), props.tournament_id) is None) ==> r
            == Err::<response::TournamentMembership, AppError>(AppError::TournamentNonexistent),
        (tournament_by_id_spec(*old(db), props.tournament_id) matches Some(t) && t.creator_user_id
            != user_id && (data_current_spec(*old(db), props.tournament_id) matches Some(d)
            && d.active) && (year_current_spec(*old(db), props.tournament_id) matches Some(y)
            && y.current_year > 0)) ==> r == Err::<response::TournamentMembership, AppError>(
            AppError::TournamentStarted,
        ),
        join_ok(*old(db), props.tournament_id, user_id) ==> (r is Ok <==> old(
            db,
        ).tournament_memberships.next_id < i64::MAX && old(db).tournament_year_demands.next_id
            < i64::MAX),
        join_ok(*old(db), props.tournament_id, user_id) && !(old(
            db,
        ).tournament_memberships.next_id < i64::MAX && old(db).tournament_year_demands.next_id
            < i64::MAX) ==> r == Err::<response::TournamentMembership, AppError>(
            AppError::InternalServerError,
        ),
        r matches Ok(resp) ==> ({
            let t = tournament_by_id_spec(*old(db), props.tournament_id)->Some_0;
            let mrec = (Record {
                id: old(db).tournament_memberships.next_id,
                creation_time: now,
                creator_user_id: user_id,
                key: member_key(props.tournament_id, user_id),
                payload: TournamentMembershipPayload { active: props.active },
            });
            &&& join_ok(*old(db), props.tournament_id, user_id)
            &&& final(db).tournament_memberships.rows@ == old(
                db,
            ).tournament_memberships.rows@.push(mrec)
            &&& membership_current_spec(*final(db), props.tournament_id, user_id) == Some(
                spec_tournament_membership(mrec),
            )
            &&& final(db).tournament_year_demands.rows@.len() == old(
                db,
            ).tournament_year_demands.rows@.len() + 1
            &&& ({
                let dr = final(db).tournament_year_demands.rows@.last();
                &&& dr.id == old(db).tournament_year_demands.next_id
                &&& dr.creation_time == now
                &&& dr.key == round_key(props.tournament_id, user_id, 0)
                &&& demand_ok(
                    t.baseline_demand,
                    t.incentive_multiplier,
                    0,
                    t.incentive_start_year,
                    dr.payload.demand,
                )
                &&& demand_current_spec(*final(db), props.tournament_id, user_id, 0) == Some(
                    spec_tournament_year_demand(dr),
                )
                &&& final(db).tournament_year_demands.rows@.drop_last() == old(
                    db,
                ).tournament_year_demands.rows@
            })
            &&& final(db).tournaments == old(db).tournaments
            &&& final(db).tournament_datas == old(db).tournament_datas
            &&& final(db).tournament_years == old(db).tournament_years
            &&& final(db).tournament_submissions == old(db).tournament_submissions
            &&& resp == (response::TournamentMembership {
                tournament_membership_id: mrec.id,
                creation_time: now,
                creator_user_id: user_id,
                tournament: resp_tournament_spec(t),
                active: props.active,
            })
        }),
{
    let tournament = match tournament_service::get_by_tournament_id(db, props.tournament_id) {
        Some(t) => t,
        None => {
            return Err(AppError::TournamentNonexistent);
        },
    };
    // The creator can never hold a membership in their own tournament.
    if tournament.creator_user_id == user_id {
        return Err(AppError::TournamentMembershipInvalid);
    }
    let tournament_data = match tournament_data_service::get_recent_by_tournament_id(
        db,
        props.tournament_id,
    ) {
        Some(d) => d,
        None => {
            return Err(AppError::TournamentNonexistent);
        },
    };
    if !tournament_data.active {
        return Err(AppError::TournamentArchived);
    }
    let tournament_year = match tournament_year_service::get_recent_by_tournament_id(
        db,
        props.tournament_id,
    ) {
        Some(y) => y,
        None => {
            return Err(AppError::TournamentNonexistent);
        },
    };
    // Joining is only possible before the tournament starts.
    if tournament_year.current_year > 0 {
        return Err(AppError::TournamentStarted);
    }
    // Reserve identifier capacity for both appends.
    if db.tournament_memberships.next_id == i64::MAX || db.tournament_year_demands.next_id
        == i64::MAX {
        return Err(AppError::InternalServerError);
    }
    proof {
        lemma_tournament_params(*db, props.tournament_id);
    }
    let tournament_membership = match tournament_membership_service::add(
        db,
        user_id,
        props.tournament_id,
        props.active,
        now,
    ) {
        Ok(m) => m,
        Err(_) => {
            return Err(AppError::InternalServerError);
        },
    };
    let demand = compute_demand(
        tournament.baseline_demand,
        tournament.incentive_multiplier,
        0,
        tournament.incentive_start_year,
    );
    match tournament_year_demand_service::add(db, user_id, props.tournament_id, 0, demand, now) {
        Ok(_) => {},
        Err(_) => {
            return Err(AppError::InternalServerError);
        },
    }
    proof {
        assert(final(db).tournament_year_demands.rows@.drop_last() == old(
            db,
        ).tournament_year_demands.rows@);
    }
    Ok(
        response::TournamentMembership {
            tournament_membership_id: tournament_membership.tournament_membership_id,
            creation_time: tournament_membership.creation_time,
            creator_user_id: tournament_membership.creator_user_id,
            tournament: fill_tournament(tournament),
            active: tournament_membership.active,
        },
    )
}

// ---------------------------------------------------------------------------
// AdvanceYear.
// ---------------------------------------------------------------------------

/// The active members that lack a current submission for round `year`, in
/// member-list order, over the first `n` listed members.
pub open spec fn missing_upto(
    subs: Seq<Record<TournamentSubmissionPayload>>,
    ids: Seq<i64>,
    tournament_id: i64,
    year: i64,
    n: int,
) -> Seq<i64>
    decreases n,
{
    if n <= 0 {
        Seq::empty()
    } else {
        let p = missing_upto(subs, ids, tournament_id, year, n - 1);
        if latest_for_key(subs, round_key(tournament_id, ids[n - 1], year)) is None {
            p.push(ids[n - 1])
        } else {
            p
        }
    }
}

pub open spec fn missing_ids_spec(
    subs: Seq<Record<TournamentSubmissionPayload>>,
    ids: Seq<i64>,
    tournament_id: i64,
    year: i64,
) -> Seq<i64> {
    missing_upto(subs, ids, tournament_id, year, ids.len() as int)
}

/// `uid` occurs among the first `n` listed member ids.
pub open spec fn listed_member(ids: Seq<i64>, n: int, uid: i64) -> bool {
    exists|k: int| 0 <= k < n && #[trigger] ids[k] == uid
}

proof fn lemma_listed_mono(ids: Seq<i64>, n1: int, n2: int, uid: i64)
    requires
        n1 <= n2,
        listed_member(ids, n1, uid),
    ensures
        listed_member(ids, n2, uid),
{
    let k = choose|k: int| 0 <= k < n1 && #[trigger] ids[k] == uid;
    assert(ids[k] == uid);
}

/// Every listed missing member lacks a current submission and is a listed
/// member; no member is listed as missing twice.
pub proof fn lemma_missing_wf(
    subs: Seq<Record<TournamentSubmissionPayload>>,
    ids: Seq<i64>,
    tournament_id: i64,
    year: i64,
    n: int,
)
    requires
        0 <= n <= ids.len(),
        forall|k1: int, k2: int| 0 <= k1 < k2 < ids.len() ==> ids[k1] != ids[k2],
    ensures
        forall|j: int|
            0 <= j < missing_upto(subs, ids, tournament_id, year, n).len() ==> (latest_for_key(
                subs,
                round_key(
                    tournament_id,
                    #[trigger] missing_upto(subs, ids, tournament_id, year, n)[j],
                    year,
                ),
            ) is None && listed_member(
                ids,
                n,
                missing_upto(subs, ids, tournament_id, year, n)[j],
            )),
        forall|j1: int, j2: int|
            0 <= j1 < j2 < missing_upto(subs, ids, tournament_id, year, n).len() ==> missing_upto(
                subs,
                ids,
                tournament_id,
                year,
                n,
            )[j1] != missing_upto(subs, ids, tournament_id, year, n)[j2],
    decreases n,
{
    if n > 0 {
        lemma_missing_wf(subs, ids, tournament_id, year, n - 1);
        let p = missing_upto(subs, ids, tournament_id, year, n - 1);
        let q = missing_upto(subs, ids, tournament_id, year, n);
        if latest_for_key(subs, round_key(tournament_id, ids[n - 1], year)) is None {
            assert(q == p.push(ids[n - 1]));
            assert forall|j: int| 0 <= j < q.len() implies (latest_for_key(
                subs,
                round_key(tournament_id, #[trigger] q[j], year),
            ) is None && listed_member(ids, n, q[j])) by {
                if j < p.len() {
                    assert(q[j] == p[j]);
                    lemma_listed_mono(ids, n - 1, n, p[j]);
                } else {
                    assert(q[j] == ids[n - 1]);
                }
            }
            assert forall|j1: int, j2: int| 0 <= j1 < j2 < q.len() implies q[j1] != q[j2] by {
                if j2 == q.len() - 1 {
                    assert(listed_member(ids, n - 1, p[j1]));
                    let k = choose|k: int| 0 <= k < n - 1 && #[trigger] ids[k] == p[j1];
                    if p[j1] == ids[n - 1] {
                        assert(ids[k] == ids[n - 1]);
                        assert(false);
                    }
                }
            }
        } else {
            assert(q == p);
            assert forall|j: int| 0 <= j < q.len() implies (latest_for_key(
                subs,
                round_key(tournament_id, #[trigger] q[j], year),
            ) is None && listed_member(ids, n, q[j])) by {
                assert(q[j] == p[j]);
                lemma_listed_mono(ids, n - 1, n, p[j]);
            }
        }
    }
}

/// Every listed member without a current submission is listed as missing.
pub proof fn lemma_missing_complete(
    subs: Seq<Record<TournamentSubmissionPayload>>,
    ids: Seq<i64>,
    tournament_id: i64,
    year: i64,
    n: int,
    k: int,
)
    requires
        0 <= k < n <= ids.len(),
        latest_for_key(subs, round_key(tournament_id, ids[k], year)) is None,
    ensures
        missing_upto(subs, ids, tournament_id, year, n).contains(ids[k]),
    decreases n,
{
    let q = missing_upto(subs, ids, tournament_id, year, n);
    if n - 1 == k {
        assert(q.last() == ids[k]);
    } else {
        lemma_missing_complete(subs, ids, tournament_id, year, n - 1, k);
        let p = missing_upto(subs, ids, tournament_id, year, n - 1);
        let j = choose|j: int| 0 <= j < p.len() && p[j] == ids[k];
        assert(q[j] == ids[k]);
    }
}

proof fn lemma_active_ids_len(
    rows: Seq<Record<TournamentMembershipPayload>>,
    tournament_id: i64,
    n: int,
)
    requires
        0 <= n <= rows.len(),
    ensures
        crate::tournament_membership_service::active_member_ids_upto(rows, tournament_id, n).len()
            <= n,
    decreases n,
{
    if n > 0 {
        lemma_active_ids_len(rows, tournament_id, n - 1);
    }
}

proof fn lemma_missing_len(
    subs: Seq<Record<TournamentSubmissionPayload>>,
    ids: Seq<i64>,
    tournament_id: i64,
    year: i64,
    n: int,
)
    requires
        0 <= n <= ids.len(),
    ensures
        missing_upto(subs, ids, tournament_id, year, n).len() <= n,
    decreases n,
{
    if n > 0 {
        lemma_missing_len(subs, ids, tournament_id, year, n - 1);
    }
}

/// One auto-filled submission record: amount 0, marked autogenerated.
pub open spec fn autofill_rec(tournament_id: i64, user_id: i64, year: i64, now: i64, id: i64)
    -> Record<TournamentSubmissionPayload> {
    Record {
        id,
        creation_time: now,
        creator_user_id: user_id,
        key: round_key(tournament_id, user_id, year),
        payload: TournamentSubmissionPayload { amount: 0, autogenerated: true },
    }
}

/// The auto-filled submission records for the listed members, with
/// consecutive identifiers starting at `first_id`.
pub open spec fn autofill_seq(ids: Seq<i64>, tournament_id: i64, year: i64, now: i64, first_id: int)
    -> Seq<Record<TournamentSubmissionPayload>> {
    Seq::new(ids.len(), |i: int| autofill_rec(tournament_id, ids[i], year, now, (first_id + i) as i64))
}

/// Whether an advancement is admissible: the tournament exists, the caller
/// owns it, its current data is active, and its current round is below the
/// cap.
pub open spec fn advance_ok(db: Db, tournament_id: i64, user_id: i64) -> bool {
    &&& tournament_by_id_spec(db, tournament_id) matches Some(t) && t.creator_user_id == user_id
        && (data_current_spec(db, tournament_id) matches Some(d) && d.active)
        && (year_current_spec(db, tournament_id) matches Some(y) && y.current_year < t.max_years)
}

/// The active members an advancement targets.
pub open spec fn advance_members(db: Db, tournament_id: i64) -> Seq<i64> {
    crate::tournament_membership_service::active_member_ids_spec(
        db.tournament_memberships.rows@,
        tournament_id,
    )
}

/// The members whose submission for the elapsing round must be auto-filled.
pub open spec fn advance_missing(db: Db, tournament_id: i64) -> Seq<i64> {
    missing_ids_spec(
        db.tournament_submissions.rows@,
        advance_members(db, tournament_id),
        tournament_id,
        year_current_spec(db, tournament_id)->Some_0.current_year,
    )
}

/// Whether the identifier space suffices for every append an advancement
/// makes: one round row, one submission per missing member, one demand per
/// active member.
pub open spec fn advance_capacity_ok(db: Db, tournament_id: i64) -> bool {
    &&& db.tournament_years.next_id < i64::MAX
    &&& db.tournament_submissions.next_id + advance_missing(db, tournament_id).len() <= i64::MAX
    &&& db.tournament_year_demands.next_id + advance_members(db, tournament_id).len() <= i64::MAX
}

/// Advances a tournament by one round: auto-fills a zero submission for
/// every active member who did not submit for the elapsing round, appends
/// the new round row, and appends a freshly computed demand for every active
/// member for the new round — all or nothing.
pub fn tournament_year_new(db: &mut Db, user_id: i64, props: TournamentYearNewProps, now: i64) -> (r:
    Result<response::TournamentYear, AppError>)
    requires
        old(db).wf(),
    ensures
        final(db).wf(),
        r is Err ==> *final(db) == *old(db),
        tournament_by_id_spec(*old(db), props.tournament_id) is None ==> r == Err::<
            response::TournamentYear,
            AppError,
        >(AppError::TournamentNonexistent),
        (tournament_by_id_spec(*old(db), props.tournament_id) matches Some(t) && t.creator_user_id
            != user_id) ==> r == Err::<response::TournamentYear, AppError>(
            AppError::TournamentNonexistent,
        ),
        (tournament_by_id_spec(*old(db), props.tournament_id) matches Some(t) && t.creator_user_id
            == user_id && data_current_spec(*old(db), props.tournament_id) is None) ==> r == Err::<
            response::TournamentYear,
            AppError,
        >(AppError::TournamentNonexistent),
        (tournament_by_id_spec(*old(db), props.tournament_id) matches Some(t) && t.creator_user_id
            == user_id && (data_current_spec(*old(db), props.tournament_id) matches Some(d)
            && !d.active)) ==> r == Err::<response::TournamentYear, AppError>(
            AppError::TournamentArchived,
        ),
        (tournament_by_id_spec(*old(db), props.tournament_id) matches Some(t) && t.creator_user_id
            == user_id && (data_current_spec(*old(db), props.tournament_id) matches Some(d)
            && d.active) && year_current_spec(*old(db), props.tournament_id) is None) ==> r
            == Err::<response::TournamentYear, AppError>(AppError::TournamentNonexistent),
        (tournament_by_id_spec(*old(db), props.tournament_id) matches Some(t) && t.creator_user_id
            == user_id && (data_current_spec(*old(db), props.tournament_id) matches Some(d)
            && d.active) && (year_current_spec(*old(db), props.tournament_id) matches Some(y)
            && y.current_year >= t.max_years)) ==> r == Err::<response::TournamentYear, AppError>(
            AppError::TournamentMaxYearsAchieved,
        ),
        advance_ok(*old(db), props.tournament_id, user_id) ==> (r is Ok <==> advance_capacity_ok(
            *old(db),
            props.tournament_id,
        )),
        advance_ok(*old(db), props.tournament_id, user_id) && !advance_capacity_ok(
            *old(db),
            props.tournament_id,
        ) ==> r == Err::<response::TournamentYear, AppError>(AppError::InternalServerError),
        r matches Ok(resp) ==> ({
            let tid = props.tournament_id;
            let t = tournament_by_id_spec(*old(db), tid)->Some_0;
            let oldy = year_current_spec(*old(db), tid)->Some_0.current_year;
            let newy = (oldy + 1) as i64;
            let ids = advance_members(*old(db), tid);
            let miss = advance_missing(*old(db), tid);
            let yrec = (Record {
                id: old(db).tournament_years.next_id,
                creation_time: now,
                creator_user_id: user_id,
                key: tournament_key(tid),
                payload: TournamentYearPayload { current_year: newy },
            });
            &&& advance_ok(*old(db), tid, user_id)
            &&& final(db).tournament_years.rows@ == old(db).tournament_years.rows@.push(yrec)
            &&& year_current_spec(*final(db), tid) == Some(spec_tournament_year(yrec))
            &&& forall|x: i64|
                x != tid ==> #[trigger] year_current_spec(*final(db), x) == year_current_spec(
                    *old(db),
                    x,
                )
            &&& final(db).tournament_submissions.rows@ == old(db).tournament_submissions.rows@
                + autofill_seq(
                miss,
                tid,
                oldy,
                now,
                old(db).tournament_submissions.next_id as int,
            )
            &&& final(db).tournament_year_demands.rows@.len() == old(
                db,
            ).tournament_year_demands.rows@.len() + ids.len()
            &&& final(db).tournament_year_demands.rows@.subrange(
                0,
                old(db).tournament_year_demands.rows@.len() as int,
            ) == old(db).tournament_year_demands.rows@
            &&& ({
                let lo = old(db).tournament_year_demands.rows@.len() as int;
                let hi = final(db).tournament_year_demands.rows@.len() as int;
                forall|j: int|
                lo <= j < hi ==> ({
                    let dr = #[trigger] final(db).tournament_year_demands.rows@[j];
                    let k = j - old(db).tournament_year_demands.rows@.len();
                    &&& dr.id == old(db).tournament_year_demands.next_id + k
                    &&& dr.creation_time == now
                    &&& dr.creator_user_id == ids[k]
                    &&& dr.key == round_key(tid, ids[k], newy)
                    &&& demand_ok(
                        t.baseline_demand,
                        t.incentive_multiplier,
                        newy,
                        t.incentive_start_year,
                        dr.payload.demand,
                    )
                })
            })
            &&& forall|k2: int|
                0 <= k2 < ids.len() ==> (demand_current_spec(
                    *final(db),
                    tid,
                    #[trigger] ids[k2],
                    newy,
                ) matches Some(dv) && dv.year == newy && dv.user_id == ids[k2] && demand_ok(
                    t.baseline_demand,
                    t.incentive_multiplier,
                    newy,
                    t.incentive_start_year,
                    dv.demand,
                ))
            &&& final(db).tournaments == old(db).tournaments
            &&& final(db).tournament_datas == old(db).tournament_datas
            &&& final(db).tournament_memberships == old(db).tournament_memberships
            &&& forall|uid: i64|
                (#[trigger] membership_current_spec(*old(db), tid, uid) matches Some(m) && m.active)
                    ==> (submission_current_spec(*final(db), tid, uid, oldy) matches Some(sv) && {
                    &&& (sv.autogenerated <==> submission_current_spec(*old(db), tid, uid, oldy)
                        is None)
                    &&& (submission_current_spec(*old(db), tid, uid, oldy) matches Some(s0) ==> sv
                        == s0)
                    &&& (submission_current_spec(*old(db), tid, uid, oldy) is None ==> sv.amount
                        == 0 && sv.creation_time == now && sv.year == oldy && sv.creator_user_id
                        == uid)
                })
            &&& resp == (response::TournamentYear {
                tournament_year_id: old(db).tournament_years.next_id,
                creation_time: now,
                creator_user_id: user_id,
                tournament: resp_tournament_spec(t),
                current_year: newy,
            })
        }),
{
    let ghost db0 = *old(db);
    let tournament = match tournament_service::get_by_tournament_id(db, props.tournament_id) {
        Some(t) => t,
        None => {
            return Err(AppError::TournamentNonexistent);
        },
    };
    if tournament.creator_user_id != user_id {
        return Err(AppError::TournamentNonexistent);
    }
    proof {
        crate::db_types::lemma_tournament_id_bound(*db, props.tournament_id);
        lemma_tournament_params(*db, props.tournament_id);
    }
    let tournament_data = match tournament_data_service::get_recent_by_tournament_id(
        db,
        props.tournament_id,
    ) {
        Some(d) => d,
        None => {
            return Err(AppError::TournamentNonexistent);
        },
    };
    if !tournament_data.active {
        return Err(AppError::TournamentArchived);
    }
    let tournament_year = match tournament_year_service::get_recent_by_tournament_id(
        db,
        props.tournament_id,
    ) {
        Some(y) => y,
        None => {
            return Err(AppError::TournamentNonexistent);
        },
    };
    if tournament_year.current_year >= tournament.max_years {
        return Err(AppError::TournamentMaxYearsAchieved);
    }
    proof {
        crate::db_types::lemma_year_current_bounds(*db, props.tournament_id);
    }
    let current_year = tournament_year.current_year;

    // The currently-active members, and those of them who did not submit for
    // the elapsing round.
    let member_ids = tournament_membership_service::get_recent_active_user_ids(
        db,
        props.tournament_id,
    );
    let n_members = member_ids.len();
    let mut users_who_didnt_submit: Vec<i64> = Vec::new();
    let mut i: usize = 0;
    while i < n_members
        invariant
            i <= n_members,
            n_members == member_ids@.len(),
            *db == db0,
            users_who_didnt_submit@ == missing_upto(
                db0.tournament_submissions.rows@,
                member_ids@,
                props.tournament_id,
                current_year,
                i as int,
            ),
        decreases n_members - i,
    {
        let uid = member_ids[i];
        let key = GroupKey {
            tournament_id: props.tournament_id,
            user_id: uid,
            year: current_year,
        };
        if db.tournament_submissions.current_index(key).is_none() {
            users_who_didnt_submit.push(uid);
        }
        i = i + 1;
    }
    let n_missing = users_who_didnt_submit.len();

    // Reserve identifier capacity for every append before the first one, so
    // that the whole transition is all-or-nothing.
    proof {
        lemma_len_le_next(db.tournament_memberships);
        lemma_active_ids_len(
            db.tournament_memberships.rows@,
            props.tournament_id,
            db.tournament_memberships.rows@.len() as int,
        );
        lemma_missing_len(
            db.tournament_submissions.rows@,
            member_ids@,
            props.tournament_id,
            current_year,
            member_ids@.len() as int,
        );
        assert(n_members <= i64::MAX);
        assert(n_missing <= n_members);
    }
    if db.tournament_years.next_id == i64::MAX {
        return Err(AppError::InternalServerError);
    }
    if db.tournament_submissions.next_id > i64::MAX - (n_missing as i64) {
        return Err(AppError::InternalServerError);
    }
    if db.tournament_year_demands.next_id > i64::MAX - (n_members as i64) {
        return Err(AppError::InternalServerError);
    }

    // Append the new round row first: auto-filled submissions then refer to
    // an already elapsed round.
    let new_year = current_year + 1;
    let ghost yrec = (Record {
        id: db.tournament_years.next_id,
        creation_time: now,
        creator_user_id: user_id,
        key: tournament_key(props.tournament_id),
        payload: TournamentYearPayload { current_year: new_year },
    });
    let resp_year = match tournament_year_service::add(
        db,
        user_id,
        props.tournament_id,
        new_year,
        now,
    ) {
        Ok(y) => y,
        Err(_) => {
            return Err(AppError::InternalServerError);
        },
    };
    let ghost years_after = db.tournament_years;

    // Auto-fill a zero submission for every active member who missed the
    // elapsed round.
    let ghost pre_subs = db.tournament_submissions.rows@;
    let ghost sub_first: int = db.tournament_submissions.next_id as int;
    let mut i: usize = 0;
    while i < n_missing
        invariant
            i <= n_missing,
            n_missing == users_who_didnt_submit@.len(),
            db.wf(),
            db.tournaments == db0.tournaments,
            db.tournament_datas == db0.tournament_datas,
            db.tournament_memberships == db0.tournament_memberships,
            db.tournament_years == years_after,
            db.tournament_year_demands == db0.tournament_year_demands,
            year_current_spec(*db, props.tournament_id) matches Some(y) && y.current_year
                == new_year,
            current_year < new_year,
            pre_subs == db0.tournament_submissions.rows@,
            sub_first == db0.tournament_submissions.next_id,
            sub_first + n_missing <= i64::MAX,
            db.tournament_submissions.next_id == sub_first + i,
            db.tournament_submissions.rows@ == pre_subs + autofill_seq(
                users_who_didnt_submit@.subrange(0, i as int),
                props.tournament_id,
                current_year,
                now,
                sub_first,
            ),
        decreases n_missing - i,
    {
        let uid = users_who_didnt_submit[i];
        match tournament_submission_service::add(
            db,
            uid,
            props.tournament_id,
            current_year,
            0,
            true,
            now,
        ) {
            Ok(_) => {},
            Err(_) => {
                return Err(AppError::InternalServerError);
            },
        }
        proof {
            let mprev = users_who_didnt_submit@.subrange(0, i as int);
            let mnext = users_who_didnt_submit@.subrange(0, (i + 1) as int);
            let rec = autofill_rec(
                props.tournament_id,
                uid,
                current_year,
                now,
                (sub_first + i) as i64,
            );
            assert(autofill_seq(mnext, props.tournament_id, current_year, now, sub_first)
                =~= autofill_seq(mprev, props.tournament_id, current_year, now, sub_first).push(
                rec,
            ));
            assert(db.tournament_submissions.rows@ =~= pre_subs + autofill_seq(
                mnext,
                props.tournament_id,
                current_year,
                now,
                sub_first,
            ));
        }
        i = i + 1;
    }
    proof {
        assert(users_who_didnt_submit@.subrange(0, n_missing as int) =~= users_who_didnt_submit@);
    }

    // Append a freshly computed demand for every active member for the new
    // round.
    let ghost pre_dem = db.tournament_year_demands.rows@;
    let ghost dem_first: int = db.tournament_year_demands.next_id as int;
    let ghost subs_after = db.tournament_submissions;
    let mut i: usize = 0;
    while i < n_members
        invariant
            i <= n_members,
            n_members == member_ids@.len(),
            db.wf(),
            db.tournaments == db0.tournaments,
            db.tournament_datas == db0.tournament_datas,
            db.tournament_memberships == db0.tournament_memberships,
            db.tournament_years == years_after,
            db.tournament_submissions == subs_after,
            pre_dem == db0.tournament_year_demands.rows@,
            dem_first == db0.tournament_year_demands.next_id,
            dem_first + n_members <= i64::MAX,
            db.tournament_year_demands.next_id == dem_first + i,
            db.tournament_year_demands.rows@.len() == pre_dem.len() + i,
            db.tournament_year_demands.rows@.subrange(0, pre_dem.len() as int) == pre_dem,
            forall|j: int|
                pre_dem.len() <= j < db.tournament_year_demands.rows@.len() ==> ({
                    let dr = #[trigger] db.tournament_year_demands.rows@[j];
                    let k = j - pre_dem.len();
                    &&& dr.id == dem_first + k
                    &&& dr.creation_time == now
                    &&& dr.creator_user_id == member_ids@[k]
                    &&& dr.key == round_key(props.tournament_id, member_ids@[k], new_year)
                    &&& demand_ok(
                        tournament.baseline_demand,
                        tournament.incentive_multiplier,
                        new_year,
                        tournament.incentive_start_year,
                        dr.payload.demand,
                    )
                }),
            tournament.incentive_multiplier > i64::MIN,
            tournament.baseline_demand + abs_i64(tournament.incentive_multiplier) <= i64::MAX,
            tournament.baseline_demand - abs_i64(tournament.incentive_multiplier) >= i64::MIN,
        decreases n_members - i,
    {
        let uid = member_ids[i];
        let demand = compute_demand(
            tournament.baseline_demand,
            tournament.incentive_multiplier,
            new_year,
            tournament.incentive_start_year,
        );
        match tournament_year_demand_service::add(
            db,
            uid,
            props.tournament_id,
            new_year,
            demand,
            now,
        ) {
            Ok(_) => {},
            Err(_) => {
                return Err(AppError::InternalServerError);
            },
        }
        proof {
            assert(db.tournament_year_demands.rows@.subrange(0, pre_dem.len() as int)
                =~= pre_dem);
        }
        i = i + 1;
    }

    proof {
        let tid = props.tournament_id;
        let ids = member_ids@;
        let miss = users_who_didnt_submit@;
        let batch = autofill_seq(miss, tid, current_year, now, sub_first);
        let subs_final = db.tournament_submissions.rows@;
        assert(subs_final == pre_subs + batch);

        // The new round row is the current one; other tournaments' rounds
        // are untouched.
        assert(db.tournament_years.rows@ =~= db0.tournament_years.rows@ + seq![yrec]);
        assert forall|x: i64| x != tid implies #[trigger] year_current_spec(*db, x)
            == year_current_spec(db0, x) by {
            lemma_latest_append(db0.tournament_years.rows@, seq![yrec], tournament_key(x));
        }

        // Every active member has a current demand for the new round: the
        // appended demand records carry pairwise distinct member ids, so
        // each is the latest for its key.
        assert forall|i2: int| 0 <= i2 < db0.tournament_memberships.rows@.len() implies (
        #[trigger] db0.tournament_memberships.rows@[i2]).key.year == 0 by {}
        crate::tournament_membership_service::lemma_active_ids_wf(
            db0.tournament_memberships.rows@,
            tid,
            db0.tournament_memberships.rows@.len() as int,
        );
        let full = crate::tournament_membership_service::active_member_ids_upto(
            db0.tournament_memberships.rows@,
            tid,
            db0.tournament_memberships.rows@.len() as int,
        );
        assert(ids == full);
        let dem_final = db.tournament_year_demands.rows@;
        assert forall|k2: int| 0 <= k2 < ids.len() implies (demand_current_spec(
            *db,
            tid,
            #[trigger] ids[k2],
            new_year,
        ) matches Some(dv) && dv.year == new_year && dv.user_id == ids[k2] && crate::incentive::demand_ok(
            tournament.baseline_demand,
            tournament.incentive_multiplier,
            new_year,
            tournament.incentive_start_year,
            dv.demand,
        )) by {
            let idx = pre_dem.len() as int + k2;
            let dkey = round_key(tid, ids[k2], new_year);
            assert(dem_final[idx].key == dkey);
            assert forall|j2: int| idx < j2 < dem_final.len() implies (#[trigger] dem_final[j2]).key
                != dkey by {
                let kk = j2 - pre_dem.len() as int;
                assert(dem_final[j2].key == round_key(tid, ids[kk], new_year));
                assert(full[k2] != full[kk]);
            }
            lemma_latest_at(dem_final, dkey, idx);
        }

        // Every active member ends up with exactly one current submission
        // for the elapsed round.
        crate::tournament_membership_service::lemma_active_ids_vs_current(db0, tid);
        lemma_missing_wf(pre_subs, ids, tid, current_year, ids.len() as int);
        assert forall|uid: i64|
            (#[trigger] membership_current_spec(db0, tid, uid) matches Some(m) && m.active)
            implies (submission_current_spec(*db, tid, uid, current_year) matches Some(sv) && {
            &&& (sv.autogenerated <==> submission_current_spec(db0, tid, uid, current_year)
                is None)
            &&& (submission_current_spec(db0, tid, uid, current_year) matches Some(s0) ==> sv
                == s0)
            &&& (submission_current_spec(db0, tid, uid, current_year) is None ==> sv.amount == 0
                && sv.creation_time == now && sv.year == current_year && sv.creator_user_id == uid)
        }) by {
            assert(ids.contains(uid));
            let k = choose|k: int| 0 <= k < ids.len() && ids[k] == uid;
            let key = round_key(tid, uid, current_year);
            if latest_for_key(pre_subs, key) is None {
                lemma_missing_complete(pre_subs, ids, tid, current_year, ids.len() as int, k);
                let j = choose|j: int| 0 <= j < miss.len() && miss[j] == uid;
                assert(subs_final[pre_subs.len() + j] == autofill_rec(
                    tid,
                    uid,
                    current_year,
                    now,
                    (sub_first + j) as i64,
                ));
                assert forall|j2: int| pre_subs.len() + j < j2 < subs_final.len() implies (
                #[trigger] subs_final[j2]).key != key by {
                    let k2 = j2 - pre_subs.len();
                    assert(subs_final[j2] == batch[k2]);
                    assert(batch[k2].key == round_key(tid, miss[k2], current_year));
                    assert(miss[j] != miss[k2]);
                }
                lemma_latest_at(subs_final, key, pre_subs.len() + j);
            } else {
                if miss.contains(uid) {
                    let j = choose|j: int| 0 <= j < miss.len() && miss[j] == uid;
                    assert(latest_for_key(pre_subs, round_key(tid, miss[j], current_year))
                        is None);
                    assert(false);
                }
                assert forall|j2: int| 0 <= j2 < batch.len() implies (#[trigger] batch[j2]).key
                    != key by {
                    if miss[j2] == uid {
                        assert(miss.contains(uid));
                    }
                }
                lemma_latest_append(pre_subs, batch, key);
                let s0rec = latest_for_key(pre_subs, key)->Some_0;
                if s0rec.payload.autogenerated {
                    lemma_latest_occurs(pre_subs, key);
                    let iidx = choose|iidx: int|
                        {
                            &&& 0 <= iidx < pre_subs.len()
                            &&& pre_subs[iidx] == latest_for_key(pre_subs, key)->Some_0
                            &&& pre_subs[iidx].key == key
                            &&& is_current_at(pre_subs, iidx)
                        };
                    assert(db0.tournament_submissions.rows@[iidx] == s0rec);
                    assert(false);
                }
            }
        }
    }
    Ok(
        response::TournamentYear {
            tournament_year_id: resp_year.tournament_year_id,
            creation_time: resp_year.creation_time,
            creator_user_id: resp_year.creator_user_id,
            tournament: fill_tournament(tournament),
            current_year: resp_year.current_year,
        },
    )
}

// ---------------------------------------------------------------------------
// SubmitValue.
// ---------------------------------------------------------------------------

/// Whether a submission is admissible: the tournament exists, the caller's
/// current membership exists and is active, the current data is active, and
/// a current round exists.
pub open spec fn submit_ok(db: Db, tournament_id: i64, user_id: i64) -> bool {
    &&& tournament_by_id_spec(db, tournament_id) is Some
    &&& membership_current_spec(db, tournament_id, user_id) matches Some(m) && m.active
    &&& data_current_spec(db, tournament_id) matches Some(d) && d.active
    &&& year_current_spec(db, tournament_id) is Some
}

/// Submits the caller's value for the current round: appends one manual
/// submission version keyed by (tournament, caller, current round).
pub fn tournament_submission_new(
    db: &mut Db,
    user_id: i64,
    props: TournamentSubmissionNewProps,
    now: i64,
) -> (r: Result<response::TournamentSubmission, AppError>)
    requires
        old(db).wf(),
    ensures
        final(db).wf(),
        r is Err ==> *final(db) == *old(db),
        tournament_by_id_spec(*old(db), props.tournament_id) is None ==> r == Err::<
            response::TournamentSubmission,
            AppError,
        >(AppError::TournamentNonexistent),
        (tournament_by_id_spec(*old(db), props.tournament_id) is Some && !(membership_current_spec(
            *old(db),
            props.tournament_id,
            user_id,
        ) matches Some(m) && m.active)) ==> r == Err::<response::TournamentSubmission, AppError>(
            AppError::Unauthorized,
        ),
        (tournament_by_id_spec(*old(db), props.tournament_id) is Some && (membership_current_spec(
            *old(db),
            props.tournament_id,
            user_id,
        ) matches Some(m) && m.active) && data_current_spec(*old(db), props.tournament_id) is None)
            ==> r == Err::<response::TournamentSubmission, AppError>(AppError::TournamentNonexistent),
        (tournament_by_id_spec(*old(db), props.tournament_id) is Some && (membership_current_spec(
            *old(db),
            props.tournament_id,
            user_id,
        ) matches Some(m) && m.active) && (data_current_spec(*old(db), props.tournament_id) matches
            Some(d) && !d.active)) ==> r == Err::<response::TournamentSubmission, AppError>(
            AppError::TournamentArchived,
        ),
        (tournament_by_id_spec(*old(db), props.tournament_id) is Some && (membership_current_spec(
            *old(db),
            props.tournament_id,
            user_id,
        ) matches Some(m) && m.active) && (data_current_spec(*old(db), props.tournament_id) matches
            Some(d) && d.active) && year_current_spec(*old(db), props.tournament_id) is None) ==> r
            == Err::<response::TournamentSubmission, AppError>(AppError::TournamentNonexistent),
        submit_ok(*old(db), props.tournament_id, user_id) ==> (r is Ok <==> old(
            db,
        ).tournament_submissions.next_id < i64::MAX),
        submit_ok(*old(db), props.tournament_id, user_id) && old(
            db,
        ).tournament_submissions.next_id == i64::MAX ==> r == Err::<
            response::TournamentSubmission,
            AppError,
        >(AppError::InternalServerError),
        r matches Ok(resp) ==> ({
            let t = tournament_by_id_spec(*old(db), props.tournament_id)->Some_0;
            let year = year_current_spec(*old(db), props.tournament_id)->Some_0.current_year;
            let srec = (Record {
                id: old(db).tournament_submissions.next_id,
                creation_time: now,
                creator_user_id: user_id,
                key: round_key(props.tournament_id, user_id, year),
                payload: TournamentSubmissionPayload { amount: props.amount, autogenerated: false },
            });
            &&& submit_ok(*old(db), props.tournament_id, user_id)
            &&& final(db).tournament_submissions.rows@ == old(
                db,
            ).tournament_submissions.rows@.push(srec)
            &&& submission_current_spec(*final(db), props.tournament_id, user_id, year) == Some(
                spec_tournament_submission(srec),
            )
            &&& forall|a: i64, b: i64, c: i64|
                round_key(a, b, c) != round_key(props.tournament_id, user_id, year)
                    ==> #[trigger] submission_current_spec(*final(db), a, b, c)
                    == submission_current_spec(*old(db), a, b, c)
            &&& final(db).tournaments == old(db).tournaments
            &&& final(db).tournament_datas == old(db).tournament_datas
            &&& final(db).tournament_years == old(db).tournament_years
            &&& final(db).tournament_memberships == old(db).tournament_memberships
            &&& final(db).tournament_year_demands == old(db).tournament_year_demands
            &&& resp == (response::TournamentSubmission {
                tournament_submission_id: srec.id,
                creation_time: now,
                creator_user_id: user_id,
                tournament: resp_tournament_spec(t),
                amount: props.amount,
                year,
                autogenerated: false,
            })
        }),
{
    let tournament = match tournament_service::get_by_tournament_id(db, props.tournament_id) {
        Some(t) => t,
        None => {
            return Err(AppError::TournamentNonexistent);
        },
    };
    // The caller must presently be an active member.
    let is_member = match tournament_membership_service::get_recent_by_tournament_user(
        db,
        props.tournament_id,
        user_id,
    ) {
        Some(m) => m.active,
        None => false,
    };
    if !is_member {
        return Err(AppError::Unauthorized);
    }
    let tournament_data = match tournament_data_service::get_recent_by_tournament_id(
        db,
        props.tournament_id,
    ) {
        Some(d) => d,
        None => {
            return Err(AppError::TournamentNonexistent);
        },
    };
    if !tournament_data.active {
        return Err(AppError::TournamentArchived);
    }
    let tournament_year = match tournament_year_service::get_recent_by_tournament_id(
        db,
        props.tournament_id,
    ) {
        Some(y) => y,
        None => {
            return Err(AppError::TournamentNonexistent);
        },
    };
    let tournament_submission = match tournament_submission_service::add(
        db,
        user_id,
        props.tournament_id,
        tournament_year.current_year,
        props.amount,
        false,
        now,
    ) {
        Ok(s) => s,
        Err(_) => {
            return Err(AppError::InternalServerError);
        },
    };
    Ok(
        response::TournamentSubmission {
            tournament_submission_id: tournament_submission.tournament_submission_id,
            creation_time: tournament_submission.creation_time,
            creator_user_id: tournament_submission.creator_user_id,
            tournament: fill_tournament(tournament),
            amount: tournament_submission.amount,
            year: tournament_submission.year,
            autogenerated: tournament_submission.autogenerated,
        },
    )
}

// ---------------------------------------------------------------------------
// Query operations: translate a filter into a store query, then hydrate each
// result with its referenced tournament.
// ---------------------------------------------------------------------------

/// Filtered listing of data versions, each hydrated with its tournament.
pub fn tournament_data_view(db: &Db, props: crate::request::TournamentDataViewProps) -> (r: Result<
    Vec<response::TournamentData>,
    AppError,
>)
    ensures
        ({
            let q = tournament_data_service::data_query_spec(db.tournament_datas.rows@, props);
            match r {
                Ok(v) => v@.len() == q.len() && forall|j: int|
                    0 <= j < q.len() ==> fill_data_spec(*db, q[j]) == Ok::<
                        response::TournamentData,
                        AppError,
                    >(#[trigger] v@[j]),
                Err(e) => e == AppError::TournamentNonexistent && exists|j: int|
                    0 <= j < q.len() && fill_data_spec(*db, #[trigger] q[j]) == Err::<
                        response::TournamentData,
                        AppError,
                    >(AppError::TournamentNonexistent),
            }
        }),
{
    let ghost q = tournament_data_service::data_query_spec(db.tournament_datas.rows@, props);
    let mut flats = tournament_data_service::query(db, &props);
    let mut out: Vec<response::TournamentData> = Vec::new();
    while flats.len() > 0
        invariant
            q == tournament_data_service::data_query_spec(db.tournament_datas.rows@, props),
            out@.len() + flats@.len() == q.len(),
            flats@ == q.subrange(out@.len() as int, q.len() as int),
            forall|j: int|
                0 <= j < out@.len() ==> fill_data_spec(*db, q[j]) == Ok::<
                    response::TournamentData,
                    AppError,
                >(#[trigger] out@[j]),
        decreases flats@.len(),
    {
        let ghost idx = out@.len() as int;
        proof {
            assert(flats@[0] == q[idx]);
        }
        let d = flats.remove(0);
        match fill_tournament_data(db, d) {
            Ok(v) => {
                out.push(v);
                proof {
                    assert(flats@ =~= q.subrange(out@.len() as int, q.len() as int));
                }
            },
            Err(e) => {
                proof {
                    assert(fill_data_spec(*db, q[idx]) == Err::<
                        response::TournamentData,
                        AppError,
                    >(AppError::TournamentNonexistent));
                }
                return Err(e);
            },
        }
    }
    Ok(out)
}

/// Filtered listing of membership versions, each hydrated with its
/// tournament.
pub fn tournament_membership_view(
    db: &Db,
    props: crate::request::TournamentMembershipViewProps,
) -> (r: Result<Vec<response::TournamentMembership>, AppError>)
    ensures
        ({
            let q = tournament_membership_service::membership_query_spec(
                db.tournament_memberships.rows@,
                props,
            );
            match r {
                Ok(v) => v@.len() == q.len() && forall|j: int|
                    0 <= j < q.len() ==> fill_membership_spec(*db, q[j]) == Ok::<
                        response::TournamentMembership,
                        AppError,
                    >(#[trigger] v@[j]),
                Err(e) => e == AppError::TournamentNonexistent && exists|j: int|
                    0 <= j < q.len() && fill_membership_spec(*db, #[trigger] q[j]) == Err::<
                        response::TournamentMembership,
                        AppError,
                    >(AppError::TournamentNonexistent),
            }
        }),
{
    let ghost q = tournament_membership_service::membership_query_spec(
        db.tournament_memberships.rows@,
        props,
    );
    let mut flats = tournament_membership_service::query(db, &props);
    let mut out: Vec<response::TournamentMembership> = Vec::new();
    while flats.len() > 0
        invariant
            q == tournament_membership_service::membership_query_spec(
                db.tournament_memberships.rows@,
                props,
            ),
            out@.len() + flats@.len() == q.len(),
            flats@ == q.subrange(out@.len() as int, q.len() as int),
            forall|j: int|
                0 <= j < out@.len() ==> fill_membership_spec(*db, q[j]) == Ok::<
                    response::TournamentMembership,
                    AppError,
                >(#[trigger] out@[j]),
        decreases flats@.len(),
    {
        let ghost idx = out@.len() as int;
        proof {
            assert(flats@[0] == q[idx]);
        }
        let d = flats.remove(0);
        match fill_tournament_membership(db, d) {
            Ok(v) => {
                out.push(v);
                proof {
                    assert(flats@ =~= q.subrange(out@.len() as int, q.len() as int));
                }
            },
            Err(e) => {
                proof {
                    assert(fill_membership_spec(*db, q[idx]) == Err::<
                        response::TournamentMembership,
                        AppError,
                    >(AppError::TournamentNonexistent));
                }
                return Err(e);
            },
        }
    }
    Ok(out)
}

/// Filtered listing of submission versions, each hydrated with its
/// tournament.
pub fn tournament_submission_view(
    db: &Db,
    props: crate::request::TournamentSubmissionViewProps,
) -> (r: Result<Vec<response::TournamentSubmission>, AppError>)
    ensures
        ({
            let q = tournament_submission_service::submission_query_spec(
                db.tournament_submissions.rows@,
                props,
            );
            match r {
                Ok(v) => v@.len() == q.len() && forall|j: int|
                    0 <= j < q.len() ==> fill_submission_spec(*db, q[j]) == Ok::<
                        response::TournamentSubmission,
                        AppError,
                    >(#[trigger] v@[j]),
                Err(e) => e == AppError::TournamentNonexistent && exists|j: int|
                    0 <= j < q.len() && fill_submission_spec(*db, #[trigger] q[j]) == Err::<
                        response::TournamentSubmission,
                        AppError,
                    >(AppError::TournamentNonexistent),
            }
        }),
{
    let ghost q = tournament_submission_service::submission_query_spec(
        db.tournament_submissions.rows@,
        props,
    );
    let mut flats = tournament_submission_service::query(db, &props);
    let mut out: Vec<response::TournamentSubmission> = Vec::new();
    while flats.len() > 0
        invariant
            q == tournament_submission_service::submission_query_spec(
                db.tournament_submissions.rows@,
                props,
            ),
            out@.len() + flats@.len() == q.len(),
            flats@ == q.subrange(out@.len() as int, q.len() as int),
            forall|j: int|
                0 <= j < out@.len() ==> fill_submission_spec(*db, q[j]) == Ok::<
                    response::TournamentSubmission,
                    AppError,
                >(#[trigger] out@[j]),
        decreases flats@.len(),
    {
        let ghost idx = out@.len() as int;
        proof {
            assert(flats@[0] == q[idx]);
        }
        let d = flats.remove(0);
        match fill_tournament_submission(db, d) {
            Ok(v) => {
                out.push(v);
                proof {
                    assert(flats@ =~= q.subrange(out@.len() as int, q.len() as int));
                }
            },
            Err(e) => {
                proof {
                    assert(fill_submission_spec(*db, q[idx]) == Err::<
                        response::TournamentSubmission,
                        AppError,
                    >(AppError::TournamentNonexistent));
                }
                return Err(e);
            },
        }
    }
    Ok(out)
}

/// Filtered listing of round rows, each hydrated with its tournament.
pub fn tournament_year_view(db: &Db, props: crate::request::TournamentYearViewProps) -> (r: Result<
    Vec<response::TournamentYear>,
    AppError,
>)
    ensures
        ({
            let q = tournament_year_service::year_query_spec(db.tournament_years.rows@, props);
            match r {
                Ok(v) => v@.len() == q.len() && forall|j: int|
                    0 <= j < q.len() ==> fill_year_spec(*db, q[j]) == Ok::<
                        response::TournamentYear,
                        AppError,
                    >(#[trigger] v@[j]),
                Err(e) => e == AppError::TournamentNonexistent && exists|j: int|
                    0 <= j < q.len() && fill_year_spec(*db, #[trigger] q[j]) == Err::<
                        response::TournamentYear,
                        AppError,
                    >(AppError::TournamentNonexistent),
            }
        }),
{
    let ghost q = tournament_year_service::year_query_spec(db.tournament_years.rows@, props);
    let mut flats = tournament_year_service::query(db, &props);
    let mut out: Vec<response::TournamentYear> = Vec::new();
    while flats.len() > 0
        invariant
            q == tournament_year_service::year_query_spec(db.tournament_years.rows@, props),
            out@.len() + flats@.len() == q.len(),
            flats@ == q.subrange(out@.len() as int, q.len() as int),
            forall|j: int|
                0 <= j < out@.len() ==> fill_year_spec(*db, q[j]) == Ok::<
                    response::TournamentYear,
                    AppError,
                >(#[trigger] out@[j]),
        decreases flats@.len(),
    {
        let ghost idx = out@.len() as int;
        proof {
            assert(flats@[0] == q[idx]);
        }
        let d = flats.remove(0);
        match fill_tournament_year(db, d) {
            Ok(v) => {
                out.push(v);
                proof {
                    assert(flats@ =~= q.subrange(out@.len() as int, q.len() as int));
                }
            },
            Err(e) => {
                proof {
                    assert(fill_year_spec(*db, q[idx]) == Err::<
                        response::TournamentYear,
                        AppError,
                    >(AppError::TournamentNonexistent));
                }
                return Err(e);
            },
        }
    }
    Ok(out)
}

/// Filtered listing of demand versions, each hydrated with its tournament.
pub fn tournament_year_demand_view(
    db: &Db,
    props: crate::request::TournamentYearDemandViewProps,
) -> (r: Result<Vec<response::TournamentYearDemand>, AppError>)
    ensures
        ({
            let q = tournament_year_demand_service::demand_query_spec(
                db.tournament_year_demands.rows@,
                props,
            );
            match r {
                Ok(v) => v@.len() == q.len() && forall|j: int|
                    0 <= j < q.len() ==> fill_demand_spec(*db, q[j]) == Ok::<
                        response::TournamentYearDemand,
                        AppError,
                    >(#[trigger] v@[j]),
                Err(e) => e == AppError::TournamentNonexistent && exists|j: int|
                    0 <= j < q.len() && fill_demand_spec(*db, #[trigger] q[j]) == Err::<
                        response::TournamentYearDemand,
                        AppError,
                    >(AppError::TournamentNonexistent),
            }
        }),
{
    let ghost q = tournament_year_demand_service::demand_query_spec(
        db.tournament_year_demands.rows@,
        props,
    );
    let mut flats = tournament_year_demand_service::query(db, &props);
    let mut out: Vec<response::TournamentYearDemand> = Vec::new();
    while flats.len() > 0
        invariant
            q == tournament_year_demand_service::demand_query_spec(
                db.tournament_year_demands.rows@,
                props,
            ),
            out@.len() + flats@.len() == q.len(),
            flats@ == q.subrange(out@.len() as int, q.len() as int),
            forall|j: int|
                0 <= j < out@.len() ==> fill_demand_spec(*db, q[j]) == Ok::<
                    response::TournamentYearDemand,
                    AppError,
                >(#[trigger] out@[j]),
        decreases flats@.len(),
    {
        let ghost idx = out@.len() as int;
        proof {
            assert(flats@[0] == q[idx]);
        }
        let d = flats.remove(0);
        match fill_tournament_year_demand(db, d) {
            Ok(v) => {
                out.push(v);
                proof {
                    assert(flats@ =~= q.subrange(out@.len() as int, q.len() as int));
                }
            },
            Err(e) => {
                proof {
                    assert(fill_demand_spec(*db, q[idx]) == Err::<
                        response::TournamentYearDemand,
                        AppError,
                    >(AppError::TournamentNonexistent));
                }
                return Err(e);
            },
        }
    }
    Ok(out)
}

} // verus!
