//! The tournament-year table: the round a tournament is on, versioned per
//! tournament.  The current version defines the round; rows are appended at
//! creation (round 0) and on each advancement.

use vstd::prelude::*;

use crate::db_types::Db;
use crate::db_types::TournamentYear;
use crate::db_types::TournamentYearPayload;
use crate::db_types::spec_tournament_year;
use crate::db_types::tournament_by_id_spec;
use crate::db_types::tournament_key;
use crate::db_types::year_current_spec;
use crate::request::TournamentYearViewProps;
use crate::store::GroupKey;
use crate::store::Record;
use crate::store::StoreError;
use crate::store::contains_i64;
use crate::store::is_current_at;
use crate::store::lemma_latest_append;

verus! {

/// Whether row `i` passes the round view filter.
pub open spec fn year_query_matches(
    rows: Seq<Record<TournamentYearPayload>>,
    i: int,
    props: TournamentYearViewProps,
) -> bool {
    let r = rows[i];
    &&& (props.tournament_year_id matches Some(v) ==> v@.contains(r.id))
    &&& (props.min_creation_time matches Some(t) ==> r.creation_time >= t)
    &&& (props.max_creation_time matches Some(t) ==> r.creation_time <= t)
    &&& (props.creator_user_id matches Some(v) ==> v@.contains(r.creator_user_id))
    &&& (props.tournament_id matches Some(v) ==> v@.contains(r.key.tournament_id))
    &&& (props.only_recent ==> is_current_at(rows, i))
}

pub open spec fn year_query_upto(
    rows: Seq<Record<TournamentYearPayload>>,
    props: TournamentYearViewProps,
    n: int,
) -> Seq<TournamentYear>
    decreases n,
{
    if n <= 0 {
        Seq::empty()
    } else {
        let p = year_query_upto(rows, props, n - 1);
        if year_query_matches(rows, n - 1, props) {
            p.push(spec_tournament_year(rows[n - 1]))
        } else {
            p
        }
    }
}

/// The rows passing the filter, in identifier order.
pub open spec fn year_query_spec(
    rows: Seq<Record<TournamentYearPayload>>,
    props: TournamentYearViewProps,
) -> Seq<TournamentYear> {
    year_query_upto(rows, props, rows.len() as int)
}

/// Filtered listing of round rows, ordered by identifier ascending.
pub fn query(db: &Db, props: &TournamentYearViewProps) -> (r: Vec<TournamentYear>)
    ensures
        r@ == year_query_spec(db.tournament_years.rows@, *props),
{
    let n = db.tournament_years.rows.len();
    let mut out: Vec<TournamentYear> = Vec::new();
    let mut i: usize = 0;
    while i < n
        invariant
            i <= n,
            n == db.tournament_years.rows@.len(),
            out@ == year_query_upto(db.tournament_years.rows@, *props, i as int),
        decreases n - i,
    {
        let rec = &db.tournament_years.rows[i];
        let mut keep = true;
        if let Some(v) = &props.tournament_year_id {
            if !contains_i64(v, rec.id) {
                keep = false;
            }
        }
        if let Some(t) = &props.min_creation_time {
            if rec.creation_time < *t {
                keep = false;
            }
        }
        if let Some(t) = &props.max_creation_time {
            if rec.creation_time > *t {
                keep = false;
            }
        }
        if let Some(v) = &props.creator_user_id {
            if !contains_i64(v, rec.creator_user_id) {
                keep = false;
            }
        }
        if let Some(v) = &props.tournament_id {
            if !contains_i64(v, rec.key.tournament_id) {
                keep = false;
            }
        }
        if keep && props.only_recent {
            keep = db.tournament_years.is_current(i);
        }
        if keep {
            let rec = &db.tournament_years.rows[i];
            out.push(
                TournamentYear {
                    tournament_year_id: rec.id,
                    creation_time: rec.creation_time,
                    creator_user_id: rec.creator_user_id,
                    tournament_id: rec.key.tournament_id,
                    current_year: rec.payload.current_year,
                },
            );
        }
        i = i + 1;
    }
    out
}

/// Appends a new round row for a tournament.  The round must lie within the
/// tournament's cap and may not fall below the current round, so that
/// autogenerated submissions keep referring to elapsed rounds.
pub fn add(
    db: &mut Db,
    creator_user_id: i64,
    tournament_id: i64,
    current_year: i64,
    now: i64,
) -> (r: Result<TournamentYear, StoreError>)
    requires
        old(db).wf(),
        tournament_by_id_spec(*old(db), tournament_id) matches Some(t) && 0 <= current_year
            <= t.max_years,
        year_current_spec(*old(db), tournament_id) matches Some(y0) ==> y0.current_year
            <= current_year,
    ensures
        final(db).wf(),
        old(db).tournament_years.next_id == i64::MAX ==> r is Err && *final(db) == *old(db),
        old(db).tournament_years.next_id < i64::MAX ==> {
            let rec = (Record {
                id: old(db).tournament_years.next_id,
                creation_time: now,
                creator_user_id,
                key: tournament_key(tournament_id),
                payload: TournamentYearPayload { current_year },
            });
            &&& r == Ok::<TournamentYear, StoreError>(spec_tournament_year(rec))
            &&& final(db).tournament_years.rows@ == old(db).tournament_years.rows@.push(rec)
            &&& final(db).tournament_years.next_id == old(db).tournament_years.next_id + 1
            &&& year_current_spec(*final(db), tournament_id) == Some(spec_tournament_year(rec))
            &&& forall|x: i64|
                x != tournament_id ==> #[trigger] year_current_spec(*final(db), x)
                    == year_current_spec(*old(db), x)
        },
        final(db).tournaments == old(db).tournaments,
        final(db).tournament_datas == old(db).tournament_datas,
        final(db).tournament_memberships == old(db).tournament_memberships,
        final(db).tournament_submissions == old(db).tournament_submissions,
        final(db).tournament_year_demands == old(db).tournament_year_demands,
{
    let key = GroupKey { tournament_id, user_id: 0, year: 0 };
    let payload = TournamentYearPayload { current_year };
    match db.tournament_years.append(creator_user_id, now, key, payload) {
        Ok(id) => {
            proof {
                let rows = old(db).tournament_years.rows@;
                let rec = db.tournament_years.rows@.last();
                assert(db.tournament_years.rows@ =~= rows + seq![rec]);
                assert forall|x: i64| x != tournament_id implies #[trigger] year_current_spec(
                    *db,
                    x,
                ) == year_current_spec(*old(db), x) by {
                    lemma_latest_append(rows, seq![rec], tournament_key(x));
                }
                assert forall|i: int| 0 <= i < db.tournament_submissions.rows@.len() implies {
                    let s = #[trigger] db.tournament_submissions.rows@[i];
                    s.payload.autogenerated ==> (crate::store::latest_for_key(
                        db.tournament_years.rows@,
                        tournament_key(s.key.tournament_id),
                    ) matches Some(y) && s.key.year < y.payload.current_year)
                } by {
                    let s = db.tournament_submissions.rows@[i];
                    assert(old(db).tournament_submissions.rows@[i] == s);
                    if s.key.tournament_id != tournament_id {
                        lemma_latest_append(rows, seq![rec], tournament_key(s.key.tournament_id));
                    }
                }
            }
            Ok(
                TournamentYear {
                    tournament_year_id: id,
                    creation_time: now,
                    creator_user_id,
                    tournament_id,
                    current_year,
                },
            )
        },
        Err(e) => Err(e),
    }
}

/// The current round of a tournament, if any round row exists.
pub fn get_recent_by_tournament_id(db: &Db, tournament_id: i64) -> (r: Option<TournamentYear>)
    ensures
        r == year_current_spec(*db, tournament_id),
{
    let key = GroupKey { tournament_id, user_id: 0, year: 0 };
    match db.tournament_years.current_index(key) {
        Some(i) => {
            let rec = &db.tournament_years.rows[i];
            Some(
                TournamentYear {
                    tournament_year_id: rec.id,
                    creation_time: rec.creation_time,
                    creator_user_id: rec.creator_user_id,
                    tournament_id: rec.key.tournament_id,
                    current_year: rec.payload.current_year,
                },
            )
        },
        None => None,
    }
}

} // verus!
