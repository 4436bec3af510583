//! Lifecycle rules: creation validation, ownership, joining, archiving.

use minigame::db_types::Db;
use minigame::handlers::tournament_data_new;
use minigame::handlers::tournament_membership_new;
use minigame::handlers::tournament_new;
use minigame::handlers::tournament_submission_new;
use minigame::handlers::tournament_year_new;
use minigame::request::TournamentDataNewProps;
use minigame::request::TournamentMembershipNewProps;
use minigame::request::TournamentNewProps;
use minigame::request::TournamentSubmissionNewProps;
use minigame::request::TournamentYearNewProps;
use minigame::response::AppError;
use minigame::tournament_year_demand_service;
use minigame::tournament_year_service;

fn props(baseline: i64, mult: i64, isr: i64, max: i64) -> TournamentNewProps {
    TournamentNewProps {
        title: String::from("cup"),
        baseline_demand: baseline,
        incentive_multiplier: mult,
        incentive_start_year: isr,
        max_years: max,
    }
}

fn create(db: &mut Db, creator: i64, baseline: i64, mult: i64, isr: i64, max: i64) -> i64 {
    let d = tournament_new(db, creator, props(baseline, mult, isr, max), 1000).unwrap();
    d.tournament.tournament_id
}

#[test]
fn create_fills_data_and_round_zero() {
    let mut db = Db::new();
    let d = tournament_new(&mut db, 7, props(0, 0, 2, 4), 1000).unwrap();
    assert_eq!(d.title, "cup");
    assert!(d.active);
    assert_eq!(d.creator_user_id, 7);
    assert_eq!(d.tournament.creator_user_id, 7);
    assert_eq!(d.tournament.max_years, 4);
    assert_eq!(d.tournament.incentive_start_year, 2);
    let y = tournament_year_service::get_recent_by_tournament_id(&db, d.tournament.tournament_id)
        .unwrap();
    assert_eq!(y.current_year, 0);
}

#[test]
fn create_rejects_max_years_at_most_one() {
    let mut db = Db::new();
    let r = tournament_new(&mut db, 7, props(0, 0, 2, 1), 1000);
    assert!(matches!(r, Err(AppError::TournamentMaxYearsInvalid)));
    let r = tournament_new(&mut db, 7, props(0, 0, 2, 0), 1000);
    assert!(matches!(r, Err(AppError::TournamentMaxYearsInvalid)));
}

#[test]
fn create_rejects_incentive_start_out_of_range() {
    let mut db = Db::new();
    let r = tournament_new(&mut db, 7, props(0, 0, 1, 4), 1000);
    assert!(matches!(r, Err(AppError::TournamentIncentiveStartYearInvalid)));
    let r = tournament_new(&mut db, 7, props(0, 0, 4, 4), 1000);
    assert!(matches!(r, Err(AppError::TournamentIncentiveStartYearInvalid)));
    let r = tournament_new(&mut db, 7, props(0, 0, 5, 4), 1000);
    assert!(matches!(r, Err(AppError::TournamentIncentiveStartYearInvalid)));
}

#[test]
fn revise_requires_ownership_and_hides_it() {
    let mut db = Db::new();
    let tid = create(&mut db, 7, 0, 0, 2, 4);
    let r = tournament_data_new(
        &mut db,
        8,
        TournamentDataNewProps { tournament_id: tid, title: String::from("x"), active: true },
        1001,
    );
    assert!(matches!(r, Err(AppError::TournamentNonexistent)));
    let r = tournament_data_new(
        &mut db,
        7,
        TournamentDataNewProps { tournament_id: tid, title: String::from("x"), active: true },
        1001,
    );
    assert!(r.is_ok());
    assert_eq!(r.unwrap().title, "x");
}

#[test]
fn revise_missing_tournament_fails() {
    let mut db = Db::new();
    let r = tournament_data_new(
        &mut db,
        7,
        TournamentDataNewProps { tournament_id: 42, title: String::from("x"), active: true },
        1001,
    );
    assert!(matches!(r, Err(AppError::TournamentNonexistent)));
}

#[test]
fn creator_can_never_join_own_tournament() {
    let mut db = Db::new();
    let tid = create(&mut db, 7, 0, 0, 2, 4);
    let r = tournament_membership_new(
        &mut db,
        7,
        TournamentMembershipNewProps { tournament_id: tid, active: true },
        1001,
    );
    assert!(matches!(r, Err(AppError::TournamentMembershipInvalid)));
    // Still invalid once the tournament has started.
    tournament_year_new(&mut db, 7, TournamentYearNewProps { tournament_id: tid }, 1002).unwrap();
    let r = tournament_membership_new(
        &mut db,
        7,
        TournamentMembershipNewProps { tournament_id: tid, active: true },
        1003,
    );
    assert!(matches!(r, Err(AppError::TournamentMembershipInvalid)));
}

#[test]
fn join_succeeds_before_start_and_appends_round_zero_demand() {
    let mut db = Db::new();
    let tid = create(&mut db, 7, 10, 0, 2, 4);
    let m = tournament_membership_new(
        &mut db,
        8,
        TournamentMembershipNewProps { tournament_id: tid, active: true },
        1001,
    )
    .unwrap();
    assert!(m.active);
    assert_eq!(m.creator_user_id, 8);
    let demands = tournament_year_demand_service::get_recent_by_tournament_id(&db, tid);
    assert_eq!(demands.len(), 1);
    assert_eq!(demands[0].user_id, 8);
    assert_eq!(demands[0].year, 0);
    assert_eq!(demands[0].demand, 10);
}

#[test]
fn join_fails_once_started() {
    let mut db = Db::new();
    let tid = create(&mut db, 7, 0, 0, 2, 4);
    tournament_year_new(&mut db, 7, TournamentYearNewProps { tournament_id: tid }, 1001).unwrap();
    let r = tournament_membership_new(
        &mut db,
        8,
        TournamentMembershipNewProps { tournament_id: tid, active: true },
        1002,
    );
    assert!(matches!(r, Err(AppError::TournamentStarted)));
}

#[test]
fn submit_requires_active_membership() {
    let mut db = Db::new();
    let tid = create(&mut db, 7, 0, 0, 2, 4);
    let r = tournament_submission_new(
        &mut db,
        9,
        TournamentSubmissionNewProps { tournament_id: tid, amount: 5 },
        1001,
    );
    assert!(matches!(r, Err(AppError::Unauthorized)));
    // An inactive membership is not enough either.
    tournament_membership_new(
        &mut db,
        9,
        TournamentMembershipNewProps { tournament_id: tid, active: false },
        1002,
    )
    .unwrap();
    let r = tournament_submission_new(
        &mut db,
        9,
        TournamentSubmissionNewProps { tournament_id: tid, amount: 5 },
        1003,
    );
    assert!(matches!(r, Err(AppError::Unauthorized)));
}

#[test]
fn archive_blocks_mutations_and_reactivation_restores_them() {
    let mut db = Db::new();
    let tid = create(&mut db, 7, 0, 0, 2, 5);
    tournament_membership_new(
        &mut db,
        8,
        TournamentMembershipNewProps { tournament_id: tid, active: true },
        1001,
    )
    .unwrap();
    tournament_year_new(&mut db, 7, TournamentYearNewProps { tournament_id: tid }, 1002).unwrap();
    // Archive mid-progress.
    tournament_data_new(
        &mut db,
        7,
        TournamentDataNewProps { tournament_id: tid, title: String::from("cup"), active: false },
        1003,
    )
    .unwrap();
    let r = tournament_submission_new(
        &mut db,
        8,
        TournamentSubmissionNewProps { tournament_id: tid, amount: 5 },
        1004,
    );
    assert!(matches!(r, Err(AppError::TournamentArchived)));
    let r = tournament_year_new(&mut db, 7, TournamentYearNewProps { tournament_id: tid }, 1005);
    assert!(matches!(r, Err(AppError::TournamentArchived)));
    // Round unchanged by the failed attempts.
    let y = tournament_year_service::get_recent_by_tournament_id(&db, tid).unwrap();
    assert_eq!(y.current_year, 1);
    // Reactivate: normal operation resumes.
    tournament_data_new(
        &mut db,
        7,
        TournamentDataNewProps { tournament_id: tid, title: String::from("cup"), active: true },
        1006,
    )
    .unwrap();
    tournament_submission_new(
        &mut db,
        8,
        TournamentSubmissionNewProps { tournament_id: tid, amount: 5 },
        1007,
    )
    .unwrap();
    let y = tournament_year_new(&mut db, 7, TournamentYearNewProps { tournament_id: tid }, 1008)
        .unwrap();
    assert_eq!(y.current_year, 2);
}
