//! Cross-operation laws of the lifecycle, proved from the coordinator's
//! contracts and the database invariant.

use vstd::prelude::*;

use crate::db_types::Db;
use crate::db_types::member_key;
use crate::db_types::membership_current_spec;
use crate::db_types::tournament_by_id_spec;
use crate::db_types::year_current_spec;
use crate::store::is_current_at;
use crate::store::latest_for_key;
use crate::store::lemma_latest_occurs;

verus! {

/// One successful round advancement, seen through the current-round
/// projection: exactly what `tournament_year_new` ensures of the round on
/// success.
pub open spec fn advanced_round(pre: Db, post: Db, tournament_id: i64) -> bool {
    &&& year_current_spec(pre, tournament_id) is Some
    &&& year_current_spec(post, tournament_id) matches Some(y) && y.current_year
        == year_current_spec(pre, tournament_id)->Some_0.current_year + 1
}

/// For any tournament, after N successful advancements from creation the
/// current round is exactly N: the round starts at 0 and each advancement
/// raises it by exactly 1.
pub proof fn lemma_round_counts_advances(trace: Seq<Db>, tournament_id: i64)
    requires
        trace.len() >= 1,
        year_current_spec(trace[0], tournament_id) matches Some(y) && y.current_year == 0,
        forall|i: int|
            0 <= i < trace.len() - 1 ==> advanced_round(trace[i], #[trigger] trace[i + 1], tournament_id),
    ensures
        year_current_spec(trace.last(), tournament_id) matches Some(y) && y.current_year
            == trace.len() - 1,
    decreases trace.len(),
{
    if trace.len() > 1 {
        let shorter = trace.drop_last();
        assert forall|i: int|
            0 <= i < shorter.len() - 1 implies advanced_round(
            shorter[i],
            #[trigger] shorter[i + 1],
            tournament_id,
        ) by {
            assert(advanced_round(trace[i], trace[i + 1], tournament_id));
        }
        lemma_round_counts_advances(shorter, tournament_id);
        let k = trace.len() - 2;
        assert(advanced_round(trace[k], trace[k + 1], tournament_id));
        assert(trace[k + 1] == trace.last());
    }
}

/// A tournament's creator can never hold a membership in their own
/// tournament: the database invariant excludes any membership row for the
/// creating user.
pub proof fn lemma_creator_never_member(db: Db, tournament_id: i64, user_id: i64)
    requires
        db.wf(),
        tournament_by_id_spec(db, tournament_id) matches Some(t) && t.creator_user_id == user_id,
    ensures
        membership_current_spec(db, tournament_id, user_id) is None,
{
    let rows = db.tournament_memberships.rows@;
    if membership_current_spec(db, tournament_id, user_id) is Some {
        lemma_latest_occurs(rows, member_key(tournament_id, user_id));
        let i = choose|i: int|
            {
                &&& 0 <= i < rows.len()
                &&& rows[i] == latest_for_key(rows, member_key(tournament_id, user_id))->Some_0
                &&& rows[i].key == member_key(tournament_id, user_id)
                &&& is_current_at(rows, i)
            };
        assert(crate::db_types::tournament_in(
            db.tournaments.rows@,
            rows[i].key.tournament_id,
        ) matches Some(t2) && t2.creator_user_id != rows[i].key.user_id);
    }
}

} // verus!
