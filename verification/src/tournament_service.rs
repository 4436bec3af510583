//! The tournament table: immutable creation-time parameters, created exactly
//! once per tournament and never versioned.  Also the registry read: typed
//! lookup of a tournament by its identifier.

use vstd::prelude::*;

use crate::db_types::Db;
use crate::db_types::Tournament;
use crate::db_types::TournamentPayload;
use crate::db_types::lemma_wf_after_tournament_append;
use crate::db_types::spec_tournament;
use crate::db_types::tournament_by_id_spec;
use crate::db_types::tournament_key;
use crate::db_types::tournament_params_ok;
use crate::store::GroupKey;
use crate::store::Record;
use crate::store::StoreError;

verus! {

/// Appends the one row of a new tournament, keyed by its own fresh
/// identifier.
pub fn add(
    db: &mut Db,
    creator_user_id: i64,
    baseline_demand: i64,
    incentive_multiplier: i64,
    incentive_start_year: i64,
    max_years: i64,
    now: i64,
) -> (r: Result<Tournament, StoreError>)
    requires
        old(db).wf(),
        tournament_params_ok(
            TournamentPayload { baseline_demand, incentive_multiplier, incentive_start_year, max_years },
        ),
    ensures
        final(db).wf(),
        old(db).tournaments.next_id == i64::MAX ==> r is Err && *final(db) == *old(db),
        old(db).tournaments.next_id < i64::MAX ==> {
            let rec = (Record {
                id: old(db).tournaments.next_id,
                creation_time: now,
                creator_user_id,
                key: tournament_key(old(db).tournaments.next_id),
                payload: TournamentPayload {
                    baseline_demand,
                    incentive_multiplier,
                    incentive_start_year,
                    max_years,
                },
            });
            &&& r == Ok::<Tournament, StoreError>(spec_tournament(rec))
            &&& final(db).tournaments.rows@ == old(db).tournaments.rows@.push(rec)
            &&& final(db).tournaments.next_id == old(db).tournaments.next_id + 1
            &&& tournament_by_id_spec(*final(db), rec.id) == Some(spec_tournament(rec))
            &&& forall|x: i64|
                x != rec.id ==> #[trigger] tournament_by_id_spec(*final(db), x)
                    == tournament_by_id_spec(*old(db), x)
        },
        final(db).tournament_datas == old(db).tournament_datas,
        final(db).tournament_years == old(db).tournament_years,
        final(db).tournament_memberships == old(db).tournament_memberships,
        final(db).tournament_submissions == old(db).tournament_submissions,
        final(db).tournament_year_demands == old(db).tournament_year_demands,
{
    let tournament_id = db.tournaments.next_id;
    let key = GroupKey { tournament_id, user_id: 0, year: 0 };
    let payload = TournamentPayload {
        baseline_demand,
        incentive_multiplier,
        incentive_start_year,
        max_years,
    };
    match db.tournaments.append(creator_user_id, now, key, payload) {
        Ok(id) => {
            proof {
                let rec = (Record {
                    id: old(db).tournaments.next_id,
                    creation_time: now,
                    creator_user_id,
                    key: tournament_key(old(db).tournaments.next_id),
                    payload: TournamentPayload {
                        baseline_demand,
                        incentive_multiplier,
                        incentive_start_year,
                        max_years,
                    },
                });
                lemma_wf_after_tournament_append(*old(db), *db, rec);
            }
            Ok(
                Tournament {
                    tournament_id: id,
                    creation_time: now,
                    creator_user_id,
                    baseline_demand,
                    incentive_multiplier,
                    incentive_start_year,
                    max_years,
                },
            )
        },
        Err(e) => Err(e),
    }
}

/// Registry read: the tournament with the given identifier, if it exists.
pub fn get_by_tournament_id(db: &Db, tournament_id: i64) -> (r: Option<Tournament>)
    ensures
        r == tournament_by_id_spec(*db, tournament_id),
{
    let key = GroupKey { tournament_id, user_id: 0, year: 0 };
    match db.tournaments.current_index(key) {
        Some(i) => {
            let rec = &db.tournaments.rows[i];
            Some(
                Tournament {
                    tournament_id: rec.id,
                    creation_time: rec.creation_time,
                    creator_user_id: rec.creator_user_id,
                    baseline_demand: rec.payload.baseline_demand,
                    incentive_multiplier: rec.payload.incentive_multiplier,
                    incentive_start_year: rec.payload.incentive_start_year,
                    max_years: rec.payload.max_years,
                },
            )
        },
        None => None,
    }
}

} // verus!
