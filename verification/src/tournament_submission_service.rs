//! The tournament-submission table: a member's numeric value for one round,
//! versioned per (tournament, user, round).  A submission is manual or, when
//! the member missed the round, system-filled.

use vstd::prelude::*;

use crate::db_types::Db;
use crate::db_types::TournamentSubmission;
use crate::db_types::TournamentSubmissionPayload;
use crate::db_types::round_key;
use crate::db_types::spec_tournament_submission;
use crate::db_types::submission_current_spec;
use crate::db_types::tournament_key;
use crate::db_types::year_current_spec;
use crate::store::GroupKey;
use crate::store::Record;
use crate::store::StoreError;
use crate::store::is_current_at;
use crate::store::lemma_latest_append;

verus! {

/// Appends a submission version.  An autogenerated submission may only be
/// written for a round the tournament has already moved past, which keeps
/// the invariant that auto-filled rounds are elapsed rounds.
pub fn add(
    db: &mut Db,
    creator_user_id: i64,
    tournament_id: i64,
    year: i64,
    amount: i64,
    autogenerated: bool,
    now: i64,
) -> (r: Result<TournamentSubmission, StoreError>)
    requires
        old(db).wf(),
        autogenerated ==> (year_current_spec(*old(db), tournament_id) matches Some(y) && year
            < y.current_year),
    ensures
        final(db).wf(),
        old(db).tournament_submissions.next_id == i64::MAX ==> r is Err && *final(db) == *old(db),
        old(db).tournament_submissions.next_id < i64::MAX ==> {
            let rec = (Record {
                id: old(db).tournament_submissions.next_id,
                creation_time: now,
                creator_user_id,
                key: round_key(tournament_id, creator_user_id, year),
                payload: TournamentSubmissionPayload { amount, autogenerated },
            });
            &&& r == Ok::<TournamentSubmission, StoreError>(spec_tournament_submission(rec))
            &&& final(db).tournament_submissions.rows@ == old(
                db,
            ).tournament_submissions.rows@.push(rec)
            &&& final(db).tournament_submissions.next_id == old(
                db,
            ).tournament_submissions.next_id + 1
            &&& submission_current_spec(*final(db), tournament_id, creator_user_id, year) == Some(
                spec_tournament_submission(rec),
            )
            &&& forall|a: i64, b: i64, c: i64|
                round_key(a, b, c) != round_key(tournament_id, creator_user_id, year)
                    ==> #[trigger] submission_current_spec(*final(db), a, b, c)
                    == submission_current_spec(*old(db), a, b, c)
        },
        final(db).tournaments == old(db).tournaments,
        final(db).tournament_datas == old(db).tournament_datas,
        final(db).tournament_years == old(db).tournament_years,
        final(db).tournament_memberships == old(db).tournament_memberships,
        final(db).tournament_year_demands == old(db).tournament_year_demands,
{
    let key = GroupKey { tournament_id, user_id: creator_user_id, year };
    let payload = TournamentSubmissionPayload { amount, autogenerated };
    match db.tournament_submissions.append(creator_user_id, now, key, payload) {
        Ok(id) => {
            proof {
                let rows = old(db).tournament_submissions.rows@;
                let rec = db.tournament_submissions.rows@.last();
                assert(db.tournament_submissions.rows@ =~= rows + seq![rec]);
                assert forall|a: i64, b: i64, c: i64|
                    round_key(a, b, c) != round_key(tournament_id, creator_user_id, year)
                        implies #[trigger] submission_current_spec(*db, a, b, c)
                    == submission_current_spec(*old(db), a, b, c) by {
                    lemma_latest_append(rows, seq![rec], round_key(a, b, c));
                }
                assert forall|i: int| 0 <= i < db.tournament_submissions.rows@.len() implies {
                    let s = #[trigger] db.tournament_submissions.rows@[i];
                    s.payload.autogenerated ==> (crate::store::latest_for_key(
                        db.tournament_years.rows@,
                        tournament_key(s.key.tournament_id),
                    ) matches Some(y) && s.key.year < y.payload.current_year)
                } by {
                    if i < rows.len() {
                        assert(db.tournament_submissions.rows@[i] == rows[i]);
                    }
                }
            }
            Ok(
                TournamentSubmission {
                    tournament_submission_id: id,
                    creation_time: now,
                    creator_user_id,
                    tournament_id,
                    year,
                    amount,
                    autogenerated,
                },
            )
        },
        Err(e) => Err(e),
    }
}

/// Whether row `i` passes the submission view filter, which always lists
/// all versions.
pub open spec fn submission_query_matches(
    rows: Seq<Record<TournamentSubmissionPayload>>,
    i: int,
    props: crate::request::TournamentSubmissionViewProps,
) -> bool {
    let r = rows[i];
    &&& (props.tournament_submission_id matches Some(v) ==> v@.contains(r.id))
    &&& (props.min_creation_time matches Some(t) ==> r.creation_time >= t)
    &&& (props.max_creation_time matches Some(t) ==> r.creation_time <= t)
    &&& (props.creator_user_id matches Some(v) ==> v@.contains(r.creator_user_id))
    &&& (props.tournament_id matches Some(v) ==> v@.contains(r.key.tournament_id))
}

pub open spec fn submission_query_upto(
    rows: Seq<Record<TournamentSubmissionPayload>>,
    props: crate::request::TournamentSubmissionViewProps,
    n: int,
) -> Seq<TournamentSubmission>
    decreases n,
{
    if n <= 0 {
        Seq::empty()
    } else {
        let p = submission_query_upto(rows, props, n - 1);
        if submission_query_matches(rows, n - 1, props) {
            p.push(spec_tournament_submission(rows[n - 1]))
        } else {
            p
        }
    }
}

/// The rows passing the filter, in identifier order.
pub open spec fn submission_query_spec(
    rows: Seq<Record<TournamentSubmissionPayload>>,
    props: crate::request::TournamentSubmissionViewProps,
) -> Seq<TournamentSubmission> {
    submission_query_upto(rows, props, rows.len() as int)
}

/// Filtered listing of submission versions, ordered by identifier ascending.
pub fn query(db: &Db, props: &crate::request::TournamentSubmissionViewProps) -> (r: Vec<
    TournamentSubmission,
>)
    ensures
        r@ == submission_query_spec(db.tournament_submissions.rows@, *props),
{
    let n = db.tournament_submissions.rows.len();
    let mut out: Vec<TournamentSubmission> = Vec::new();
    let mut i: usize = 0;
    while i < n
        invariant
            i <= n,
            n == db.tournament_submissions.rows@.len(),
            out@ == submission_query_upto(db.tournament_submissions.rows@, *props, i as int),
        decreases n - i,
    {
        let rec = &db.tournament_submissions.rows[i];
        let mut keep = true;
        if let Some(v) = &props.tournament_submission_id {
            if !crate::store::contains_i64(v, rec.id) {
                keep = false;
            }
        }
        if let Some(t) = &props.min_creation_time {
            if rec.creation_time < *t {
                keep = false;
            }
        }
        if let Some(t) = &props.max_creation_time {
            if rec.creation_time > *t {
                keep = false;
            }
        }
        if let Some(v) = &props.creator_user_id {
            if !crate::store::contains_i64(v, rec.creator_user_id) {
                keep = false;
            }
        }
        if let Some(v) = &props.tournament_id {
            if !crate::store::contains_i64(v, rec.key.tournament_id) {
                keep = false;
            }
        }
        if keep {
            out.push(
                TournamentSubmission {
                    tournament_submission_id: rec.id,
                    creation_time: rec.creation_time,
                    creator_user_id: rec.creator_user_id,
                    tournament_id: rec.key.tournament_id,
                    year: rec.key.year,
                    amount: rec.payload.amount,
                    autogenerated: rec.payload.autogenerated,
                },
            );
        }
        i = i + 1;
    }
    out
}

/// The current submission versions of a tournament, in log order, over the
/// first `n` rows.
pub open spec fn recent_submissions_upto(
    rows: Seq<Record<TournamentSubmissionPayload>>,
    tournament_id: i64,
    n: int,
) -> Seq<TournamentSubmission>
    decreases n,
{
    if n <= 0 {
        Seq::empty()
    } else {
        let p = recent_submissions_upto(rows, tournament_id, n - 1);
        if rows[n - 1].key.tournament_id == tournament_id && is_current_at(rows, n - 1) {
            p.push(spec_tournament_submission(rows[n - 1]))
        } else {
            p
        }
    }
}

pub open spec fn recent_submissions_spec(
    rows: Seq<Record<TournamentSubmissionPayload>>,
    tournament_id: i64,
) -> Seq<TournamentSubmission> {
    recent_submissions_upto(rows, tournament_id, rows.len() as int)
}

/// All current submission versions of a tournament (one per member and
/// round), in log order.
pub fn get_recent_by_tournament(db: &Db, tournament_id: i64) -> (r: Vec<TournamentSubmission>)
    ensures
        r@ == recent_submissions_spec(db.tournament_submissions.rows@, tournament_id),
{
    let n = db.tournament_submissions.rows.len();
    let mut out: Vec<TournamentSubmission> = Vec::new();
    let mut i: usize = 0;
    while i < n
        invariant
            i <= n,
            n == db.tournament_submissions.rows@.len(),
            out@ == recent_submissions_upto(db.tournament_submissions.rows@, tournament_id, i as int),
        decreases n - i,
    {
        let rec = &db.tournament_submissions.rows[i];
        if rec.key.tournament_id == tournament_id && db.tournament_submissions.is_current(i) {
            out.push(
                TournamentSubmission {
                    tournament_submission_id: rec.id,
                    creation_time: rec.creation_time,
                    creator_user_id: rec.creator_user_id,
                    tournament_id: rec.key.tournament_id,
                    year: rec.key.year,
                    amount: rec.payload.amount,
                    autogenerated: rec.payload.autogenerated,
                },
            );
        }
        i = i + 1;
    }
    out
}

} // verus!
