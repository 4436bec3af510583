//! The tournament-year-demand table: the system-computed target demand for
//! one member and round, versioned per (tournament, user, round).  Rows are
//! produced only by the coordinator, never supplied by a caller.

use vstd::prelude::*;

use crate::db_types::Db;
use crate::db_types::TournamentYearDemand;
use crate::db_types::TournamentYearDemandPayload;
use crate::db_types::demand_current_spec;
use crate::db_types::round_key;
use crate::db_types::spec_tournament_year_demand;
use crate::store::GroupKey;
use crate::store::Record;
use crate::store::StoreError;
use crate::store::is_current_at;
use crate::store::lemma_latest_append;

verus! {

/// Appends a demand version for one member and round.
pub fn add(
    db: &mut Db,
    user_id: i64,
    tournament_id: i64,
    year: i64,
    demand: i64,
    now: i64,
) -> (r: Result<TournamentYearDemand, StoreError>)
    requires
        old(db).wf(),
    ensures
        final(db).wf(),
        old(db).tournament_year_demands.next_id == i64::MAX ==> r is Err && *final(db) == *old(db),
        old(db).tournament_year_demands.next_id < i64::MAX ==> {
            let rec = (Record {
                id: old(db).tournament_year_demands.next_id,
                creation_time: now,
                creator_user_id: user_id,
                key: round_key(tournament_id, user_id, year),
                payload: TournamentYearDemandPayload { demand },
            });
            &&& r == Ok::<TournamentYearDemand, StoreError>(spec_tournament_year_demand(rec))
            &&& final(db).tournament_year_demands.rows@ == old(
                db,
            ).tournament_year_demands.rows@.push(rec)
            &&& final(db).tournament_year_demands.next_id == old(
                db,
            ).tournament_year_demands.next_id + 1
            &&& demand_current_spec(*final(db), tournament_id, user_id, year) == Some(
                spec_tournament_year_demand(rec),
            )
            &&& forall|a: i64, b: i64, c: i64|
                round_key(a, b, c) != round_key(tournament_id, user_id, year)
                    ==> #[trigger] demand_current_spec(*final(db), a, b, c) == demand_current_spec(
                    *old(db),
                    a,
                    b,
                    c,
                )
        },
        final(db).tournaments == old(db).tournaments,
        final(db).tournament_datas == old(db).tournament_datas,
        final(db).tournament_years == old(db).tournament_years,
        final(db).tournament_memberships == old(db).tournament_memberships,
        final(db).tournament_submissions == old(db).tournament_submissions,
{
    let key = GroupKey { tournament_id, user_id, year };
    let payload = TournamentYearDemandPayload { demand };
    match db.tournament_year_demands.append(user_id, now, key, payload) {
        Ok(id) => {
            proof {
                let rows = old(db).tournament_year_demands.rows@;
                let rec = db.tournament_year_demands.rows@.last();
                assert(db.tournament_year_demands.rows@ =~= rows + seq![rec]);
                assert forall|a: i64, b: i64, c: i64|
                    round_key(a, b, c) != round_key(tournament_id, user_id, year)
                        implies #[trigger] demand_current_spec(*db, a, b, c)
                    == demand_current_spec(*old(db), a, b, c) by {
                    lemma_latest_append(rows, seq![rec], round_key(a, b, c));
                }
            }
            Ok(
                TournamentYearDemand {
                    tournament_year_demand_id: id,
                    creation_time: now,
                    user_id,
                    tournament_id,
                    year,
                    demand,
                },
            )
        },
        Err(e) => Err(e),
    }
}

/// Whether row `i` passes the demand view filter, which always lists all
/// versions.
pub open spec fn demand_query_matches(
    rows: Seq<Record<TournamentYearDemandPayload>>,
    i: int,
    props: crate::request::TournamentYearDemandViewProps,
) -> bool {
    let r = rows[i];
    &&& (props.tournament_year_demand_id matches Some(v) ==> v@.contains(r.id))
    &&& (props.min_creation_time matches Some(t) ==> r.creation_time >= t)
    &&& (props.max_creation_time matches Some(t) ==> r.creation_time <= t)
    &&& (props.user_id matches Some(v) ==> v@.contains(r.key.user_id))
    &&& (props.tournament_id matches Some(v) ==> v@.contains(r.key.tournament_id))
}

pub open spec fn demand_query_upto(
    rows: Seq<Record<TournamentYearDemandPayload>>,
    props: crate::request::TournamentYearDemandViewProps,
    n: int,
) -> Seq<TournamentYearDemand>
    decreases n,
{
    if n <= 0 {
        Seq::empty()
    } else {
        let p = demand_query_upto(rows, props, n - 1);
        if demand_query_matches(rows, n - 1, props) {
            p.push(spec_tournament_year_demand(rows[n - 1]))
        } else {
            p
        }
    }
}

/// The rows passing the filter, in identifier order.
pub open spec fn demand_query_spec(
    rows: Seq<Record<TournamentYearDemandPayload>>,
    props: crate::request::TournamentYearDemandViewProps,
) -> Seq<TournamentYearDemand> {
    demand_query_upto(rows, props, rows.len() as int)
}

/// Filtered listing of demand versions, ordered by identifier ascending.
pub fn query(db: &Db, props: &crate::request::TournamentYearDemandViewProps) -> (r: Vec<
    TournamentYearDemand,
>)
    ensures
        r@ == demand_query_spec(db.tournament_year_demands.rows@, *props),
{
    let n = db.tournament_year_demands.rows.len();
    let mut out: Vec<TournamentYearDemand> = Vec::new();
    let mut i: usize = 0;
    while i < n
        invariant
            i <= n,
            n == db.tournament_year_demands.rows@.len(),
            out@ == demand_query_upto(db.tournament_year_demands.rows@, *props, i as int),
        decreases n - i,
    {
        let rec = &db.tournament_year_demands.rows[i];
        let mut keep = true;
        if let Some(v) = &props.tournament_year_demand_id {
            if !crate::store::contains_i64(v, rec.id) {
                keep = false;
            }
        }
        if let Some(t) = &props.min_creation_time {
            if rec.creation_time < *t {
                keep = false;
            }
        }
        if let Some(t) = &props.max_creation_time {
            if rec.creation_time > *t {
                keep = false;
            }
        }
        if let Some(v) = &props.user_id {
            if !crate::store::contains_i64(v, rec.key.user_id) {
                keep = false;
            }
        }
        if let Some(v) = &props.tournament_id {
            if !crate::store::contains_i64(v, rec.key.tournament_id) {
                keep = false;
            }
        }
        if keep {
            out.push(
                TournamentYearDemand {
                    tournament_year_demand_id: rec.id,
                    creation_time: rec.creation_time,
                    user_id: rec.key.user_id,
                    tournament_id: rec.key.tournament_id,
                    year: rec.key.year,
                    demand: rec.payload.demand,
                },
            );
        }
        i = i + 1;
    }
    out
}

/// The current demand versions of a tournament, in log order, over the first
/// `n` rows.
pub open spec fn recent_demands_upto(
    rows: Seq<Record<TournamentYearDemandPayload>>,
    tournament_id: i64,
    n: int,
) -> Seq<TournamentYearDemand>
    decreases n,
{
    if n <= 0 {
        Seq::empty()
    } else {
        let p = recent_demands_upto(rows, tournament_id, n - 1);
        if rows[n - 1].key.tournament_id == tournament_id && is_current_at(rows, n - 1) {
            p.push(spec_tournament_year_demand(rows[n - 1]))
        } else {
            p
        }
    }
}

pub open spec fn recent_demands_spec(
    rows: Seq<Record<TournamentYearDemandPayload>>,
    tournament_id: i64,
) -> Seq<TournamentYearDemand> {
    recent_demands_upto(rows, tournament_id, rows.len() as int)
}

/// All current demand versions of a tournament (one per member and round),
/// in log order.
pub fn get_recent_by_tournament_id(db: &Db, tournament_id: i64) -> (r: Vec<TournamentYearDemand>)
    ensures
        r@ == recent_demands_spec(db.tournament_year_demands.rows@, tournament_id),
{
    let n = db.tournament_year_demands.rows.len();
    let mut out: Vec<TournamentYearDemand> = Vec::new();
    let mut i: usize = 0;
    while i < n
        invariant
            i <= n,
            n == db.tournament_year_demands.rows@.len(),
            out@ == recent_demands_upto(db.tournament_year_demands.rows@, tournament_id, i as int),
        decreases n - i,
    {
        let rec = &db.tournament_year_demands.rows[i];
        if rec.key.tournament_id == tournament_id && db.tournament_year_demands.is_current(i) {
            out.push(
                TournamentYearDemand {
                    tournament_year_demand_id: rec.id,
                    creation_time: rec.creation_time,
                    user_id: rec.key.user_id,
                    tournament_id: rec.key.tournament_id,
                    year: rec.key.year,
                    demand: rec.payload.demand,
                },
            );
        }
        i = i + 1;
    }
    out
}

} // verus!
