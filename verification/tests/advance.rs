//! Round advancement: counting, auto-fill, and all-or-nothing behavior on a
//! storage fault.

use minigame::db_types::Db;
use minigame::handlers::tournament_membership_new;
use minigame::handlers::tournament_new;
use minigame::handlers::tournament_submission_new;
use minigame::handlers::tournament_year_new;
use minigame::request::TournamentMembershipNewProps;
use minigame::request::TournamentNewProps;
use minigame::request::TournamentSubmissionNewProps;
use minigame::request::TournamentYearNewProps;
use minigame::response::AppError;
use minigame::tournament_submission_service;
use minigame::tournament_year_demand_service;
use minigame::tournament_year_service;

fn create(db: &mut Db, creator: i64, baseline: i64, mult: i64, isr: i64, max: i64) -> i64 {
    let d = tournament_new(
        db,
        creator,
        TournamentNewProps {
            title: String::from("cup"),
            baseline_demand: baseline,
            incentive_multiplier: mult,
            incentive_start_year: isr,
            max_years: max,
        },
        1000,
    )
    .unwrap();
    d.tournament.tournament_id
}

#[test]
fn round_counts_successful_advances_and_cap_is_terminal() {
    let mut db = Db::new();
    let tid = create(&mut db, 7, 0, 0, 2, 3);
    for n in 1..=3i64 {
        let y = tournament_year_new(
            &mut db,
            7,
            TournamentYearNewProps { tournament_id: tid },
            1000 + n,
        )
        .unwrap();
        assert_eq!(y.current_year, n);
    }
    // The (max_years + 1)-th attempt fails and the round is unchanged.
    let r = tournament_year_new(&mut db, 7, TournamentYearNewProps { tournament_id: tid }, 1010);
    assert!(matches!(r, Err(AppError::TournamentMaxYearsAchieved)));
    let y = tournament_year_service::get_recent_by_tournament_id(&db, tid).unwrap();
    assert_eq!(y.current_year, 3);
}

#[test]
fn advance_requires_ownership() {
    let mut db = Db::new();
    let tid = create(&mut db, 7, 0, 0, 2, 3);
    let r = tournament_year_new(&mut db, 8, TournamentYearNewProps { tournament_id: tid }, 1001);
    assert!(matches!(r, Err(AppError::TournamentNonexistent)));
    let r = tournament_year_new(&mut db, 7, TournamentYearNewProps { tournament_id: 999 }, 1001);
    assert!(matches!(r, Err(AppError::TournamentNonexistent)));
}

#[test]
fn advance_autofills_exactly_the_members_who_did_not_submit() {
    let mut db = Db::new();
    let tid = create(&mut db, 7, 0, 0, 2, 4);
    tournament_membership_new(
        &mut db,
        8,
        TournamentMembershipNewProps { tournament_id: tid, active: true },
        1001,
    )
    .unwrap();
    tournament_membership_new(
        &mut db,
        9,
        TournamentMembershipNewProps { tournament_id: tid, active: true },
        1002,
    )
    .unwrap();
    // Member 8 submits for round 0; member 9 does not.
    tournament_submission_new(
        &mut db,
        8,
        TournamentSubmissionNewProps { tournament_id: tid, amount: 42 },
        1003,
    )
    .unwrap();
    tournament_year_new(&mut db, 7, TournamentYearNewProps { tournament_id: tid }, 1004).unwrap();
    let subs = tournament_submission_service::get_recent_by_tournament(&db, tid);
    let for_round_0: Vec<_> = subs.iter().filter(|s| s.year == 0).collect();
    assert_eq!(for_round_0.len(), 2);
    for s in for_round_0 {
        if s.creator_user_id == 8 {
            assert!(!s.autogenerated);
            assert_eq!(s.amount, 42);
        } else {
            assert_eq!(s.creator_user_id, 9);
            assert!(s.autogenerated);
            assert_eq!(s.amount, 0);
        }
    }
    // One demand per active member for the new round.
    let demands = tournament_year_demand_service::get_recent_by_tournament_id(&db, tid);
    let for_round_1: Vec<_> = demands.iter().filter(|d| d.year == 1).collect();
    assert_eq!(for_round_1.len(), 2);
}

#[test]
fn advance_ignores_inactive_members() {
    let mut db = Db::new();
    let tid = create(&mut db, 7, 0, 0, 2, 4);
    tournament_membership_new(
        &mut db,
        8,
        TournamentMembershipNewProps { tournament_id: tid, active: true },
        1001,
    )
    .unwrap();
    tournament_membership_new(
        &mut db,
        9,
        TournamentMembershipNewProps { tournament_id: tid, active: false },
        1002,
    )
    .unwrap();
    tournament_year_new(&mut db, 7, TournamentYearNewProps { tournament_id: tid }, 1003).unwrap();
    let subs = tournament_submission_service::get_recent_by_tournament(&db, tid);
    assert_eq!(subs.len(), 1);
    assert_eq!(subs[0].creator_user_id, 8);
    assert!(subs[0].autogenerated);
}

#[test]
fn storage_fault_leaves_no_partial_state() {
    let mut db = Db::new();
    let tid = create(&mut db, 7, 0, 0, 2, 4);
    tournament_membership_new(
        &mut db,
        8,
        TournamentMembershipNewProps { tournament_id: tid, active: true },
        1001,
    )
    .unwrap();
    let submissions_before = tournament_submission_service::get_recent_by_tournament(&db, tid);
    let demands_before = tournament_year_demand_service::get_recent_by_tournament_id(&db, tid);
    // Exhaust the submission table's identifier space: the auto-fill append
    // inside the advancement must fail.
    let saved_next_id = db.tournament_submissions.next_id;
    db.tournament_submissions.next_id = i64::MAX;
    let r = tournament_year_new(&mut db, 7, TournamentYearNewProps { tournament_id: tid }, 1002);
    assert!(matches!(r, Err(AppError::InternalServerError)));
    // Full rollback: the round is unchanged and nothing new is visible.
    let y = tournament_year_service::get_recent_by_tournament_id(&db, tid).unwrap();
    assert_eq!(y.current_year, 0);
    let submissions_after = tournament_submission_service::get_recent_by_tournament(&db, tid);
    assert_eq!(submissions_after.len(), submissions_before.len());
    let demands_after = tournament_year_demand_service::get_recent_by_tournament_id(&db, tid);
    assert_eq!(demands_after.len(), demands_before.len());
    // With the fault gone the same advancement succeeds.
    db.tournament_submissions.next_id = saved_next_id;
    let y = tournament_year_new(&mut db, 7, TournamentYearNewProps { tournament_id: tid }, 1003)
        .unwrap();
    assert_eq!(y.current_year, 1);
}

#[test]
fn resubmission_appends_and_the_latest_version_wins() {
    let mut db = Db::new();
    let tid = create(&mut db, 7, 0, 0, 2, 4);
    tournament_membership_new(
        &mut db,
        8,
        TournamentMembershipNewProps { tournament_id: tid, active: true },
        1001,
    )
    .unwrap();
    tournament_submission_new(
        &mut db,
        8,
        TournamentSubmissionNewProps { tournament_id: tid, amount: 1 },
        1002,
    )
    .unwrap();
    tournament_submission_new(
        &mut db,
        8,
        TournamentSubmissionNewProps { tournament_id: tid, amount: 2 },
        1003,
    )
    .unwrap();
    // Both versions are kept in the log; the current one is the latest.
    assert_eq!(db.tournament_submissions.rows.len(), 2);
    let current = tournament_submission_service::get_recent_by_tournament(&db, tid);
    assert_eq!(current.len(), 1);
    assert_eq!(current[0].amount, 2);
    // Advancement does not auto-fill a member who submitted, and keeps the
    // resubmitted value current.
    tournament_year_new(&mut db, 7, TournamentYearNewProps { tournament_id: tid }, 1004).unwrap();
    let current = tournament_submission_service::get_recent_by_tournament(&db, tid);
    assert_eq!(current.len(), 1);
    assert_eq!(current[0].amount, 2);
    assert!(!current[0].autogenerated);
}

#[test]
fn advance_with_no_members_only_bumps_the_round() {
    let mut db = Db::new();
    let tid = create(&mut db, 7, 0, 0, 2, 4);
    let y = tournament_year_new(&mut db, 7, TournamentYearNewProps { tournament_id: tid }, 1001)
        .unwrap();
    assert_eq!(y.current_year, 1);
    assert!(tournament_submission_service::get_recent_by_tournament(&db, tid).is_empty());
    assert!(tournament_year_demand_service::get_recent_by_tournament_id(&db, tid).is_empty());
}
