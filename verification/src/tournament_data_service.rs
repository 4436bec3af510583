//! The tournament-data table: title and active flag, versioned per
//! tournament; the current version defines the display title and the
//! archived/active status.

use vstd::prelude::*;

use crate::db_types::Db;
use crate::db_types::TournamentData;
use crate::db_types::TournamentDataPayload;
use crate::db_types::data_current_spec;
use crate::db_types::spec_tournament_data;
use crate::db_types::tournament_key;
use crate::request::TournamentDataViewProps;
use crate::store::GroupKey;
use crate::store::Record;
use crate::store::StoreError;
use crate::store::contains_i64;
use crate::store::is_current_at;
use crate::store::lemma_latest_append;

verus! {

/// Whether row `i` passes the data view filter.
pub open spec fn data_query_matches(
    rows: Seq<Record<TournamentDataPayload>>,
    i: int,
    props: TournamentDataViewProps,
) -> bool {
    let r = rows[i];
    &&& (props.tournament_data_id matches Some(v) ==> v@.contains(r.id))
    &&& (props.min_creation_time matches Some(t) ==> r.creation_time >= t)
    &&& (props.max_creation_time matches Some(t) ==> r.creation_time <= t)
    &&& (props.creator_user_id matches Some(v) ==> v@.contains(r.creator_user_id))
    &&& (props.tournament_id matches Some(v) ==> v@.contains(r.key.tournament_id))
    &&& (props.active matches Some(b) ==> r.payload.active == b)
    &&& (props.only_recent ==> is_current_at(rows, i))
}

pub open spec fn data_query_upto(
    rows: Seq<Record<TournamentDataPayload>>,
    props: TournamentDataViewProps,
    n: int,
) -> Seq<TournamentData>
    decreases n,
{
    if n <= 0 {
        Seq::empty()
    } else {
        let p = data_query_upto(rows, props, n - 1);
        if data_query_matches(rows, n - 1, props) {
            p.push(spec_tournament_data(rows[n - 1]))
        } else {
            p
        }
    }
}

/// The rows passing the filter, in identifier order.
pub open spec fn data_query_spec(
    rows: Seq<Record<TournamentDataPayload>>,
    props: TournamentDataViewProps,
) -> Seq<TournamentData> {
    data_query_upto(rows, props, rows.len() as int)
}

/// Filtered listing of data versions, ordered by identifier ascending.
pub fn query(db: &Db, props: &TournamentDataViewProps) -> (r: Vec<TournamentData>)
    ensures
        r@ == data_query_spec(db.tournament_datas.rows@, *props),
{
    let n = db.tournament_datas.rows.len();
    let mut out: Vec<TournamentData> = Vec::new();
    let mut i: usize = 0;
    while i < n
        invariant
            i <= n,
            n == db.tournament_datas.rows@.len(),
            out@ == data_query_upto(db.tournament_datas.rows@, *props, i as int),
        decreases n - i,
    {
        let rec = &db.tournament_datas.rows[i];
        let mut keep = true;
        if let Some(v) = &props.tournament_data_id {
            if !contains_i64(v, rec.id) {
                keep = false;
            }
        }
        if let Some(t) = &props.min_creation_time {
            if rec.creation_time < *t {
                keep = false;
            }
        }
        if let Some(t) = &props.max_creation_time {
            if rec.creation_time > *t {
                keep = false;
            }
        }
        if let Some(v) = &props.creator_user_id {
            if !contains_i64(v, rec.creator_user_id) {
                keep = false;
            }
        }
        if let Some(v) = &props.tournament_id {
            if !contains_i64(v, rec.key.tournament_id) {
                keep = false;
            }
        }
        if let Some(b) = &props.active {
            if rec.payload.active != *b {
                keep = false;
            }
        }
        if keep && props.only_recent {
            keep = db.tournament_datas.is_current(i);
        }
        if keep {
            let rec = &db.tournament_datas.rows[i];
            out.push(
                TournamentData {
                    tournament_data_id: rec.id,
                    creation_time: rec.creation_time,
                    creator_user_id: rec.creator_user_id,
                    tournament_id: rec.key.tournament_id,
                    title: rec.payload.title.clone(),
                    active: rec.payload.active,
                },
            );
        }
        i = i + 1;
    }
    out
}

/// Appends a new version of a tournament's title and active flag.
pub fn add(
    db: &mut Db,
    creator_user_id: i64,
    tournament_id: i64,
    title: String,
    active: bool,
    now: i64,
) -> (r: Result<TournamentData, StoreError>)
    requires
        old(db).wf(),
    ensures
        final(db).wf(),
        old(db).tournament_datas.next_id == i64::MAX ==> r is Err && *final(db) == *old(db),
        old(db).tournament_datas.next_id < i64::MAX ==> {
            let rec = (Record {
                id: old(db).tournament_datas.next_id,
                creation_time: now,
                creator_user_id,
                key: tournament_key(tournament_id),
                payload: TournamentDataPayload { title, active },
            });
            &&& r == Ok::<TournamentData, StoreError>(spec_tournament_data(rec))
            &&& final(db).tournament_datas.rows@ == old(db).tournament_datas.rows@.push(rec)
            &&& final(db).tournament_datas.next_id == old(db).tournament_datas.next_id + 1
            &&& data_current_spec(*final(db), tournament_id) == Some(spec_tournament_data(rec))
            &&& forall|x: i64|
                x != tournament_id ==> #[trigger] data_current_spec(*final(db), x)
                    == data_current_spec(*old(db), x)
        },
        final(db).tournaments == old(db).tournaments,
        final(db).tournament_years == old(db).tournament_years,
        final(db).tournament_memberships == old(db).tournament_memberships,
        final(db).tournament_submissions == old(db).tournament_submissions,
        final(db).tournament_year_demands == old(db).tournament_year_demands,
{
    let key = GroupKey { tournament_id, user_id: 0, year: 0 };
    let title_stored = title.clone();
    let payload = TournamentDataPayload { title: title_stored, active };
    match db.tournament_datas.append(creator_user_id, now, key, payload) {
        Ok(id) => {
            proof {
                let rows = old(db).tournament_datas.rows@;
                let rec = db.tournament_datas.rows@.last();
                assert(db.tournament_datas.rows@ =~= rows + seq![rec]);
                assert forall|x: i64| x != tournament_id implies #[trigger] data_current_spec(
                    *db,
                    x,
                ) == data_current_spec(*old(db), x) by {
                    lemma_latest_append(rows, seq![rec], tournament_key(x));
                }
            }
            Ok(
                TournamentData {
                    tournament_data_id: id,
                    creation_time: now,
                    creator_user_id,
                    tournament_id,
                    title,
                    active,
                },
            )
        },
        Err(e) => Err(e),
    }
}

/// The current title and active flag of a tournament, if any version exists.
pub fn get_recent_by_tournament_id(db: &Db, tournament_id: i64) -> (r: Option<TournamentData>)
    ensures
        r == data_current_spec(*db, tournament_id),
{
    let key = GroupKey { tournament_id, user_id: 0, year: 0 };
    match db.tournament_datas.current_index(key) {
        Some(i) => {
            let rec = &db.tournament_datas.rows[i];
            Some(
                TournamentData {
                    tournament_data_id: rec.id,
                    creation_time: rec.creation_time,
                    creator_user_id: rec.creator_user_id,
                    tournament_id: rec.key.tournament_id,
                    title: rec.payload.title.clone(),
                    active: rec.payload.active,
                },
            )
        },
        None => None,
    }
}

} // verus!
