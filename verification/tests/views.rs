//! Query operations, hydration, the store itself, and the error surface.

use minigame::db_types::Db;
use minigame::handlers::AuthError;
use minigame::handlers::report_auth_err;
use minigame::handlers::tournament_data_view;
use minigame::handlers::tournament_data_new;
use minigame::handlers::tournament_membership_new;
use minigame::handlers::tournament_membership_view;
use minigame::handlers::tournament_new;
use minigame::handlers::tournament_submission_new;
use minigame::handlers::tournament_submission_view;
use minigame::handlers::tournament_year_demand_view;
use minigame::handlers::tournament_year_view;
use minigame::request::TournamentDataNewProps;
use minigame::request::TournamentDataViewProps;
use minigame::request::TournamentMembershipNewProps;
use minigame::request::TournamentMembershipViewProps;
use minigame::request::TournamentNewProps;
use minigame::request::TournamentSubmissionNewProps;
use minigame::request::TournamentSubmissionViewProps;
use minigame::request::TournamentYearDemandViewProps;
use minigame::request::TournamentYearViewProps;
use minigame::response::AppError;
use minigame::store::GroupKey;
use minigame::store::VersionedEntityStore;

fn create(db: &mut Db, creator: i64) -> i64 {
    let d = tournament_new(
        db,
        creator,
        TournamentNewProps {
            title: String::from("cup"),
            baseline_demand: 0,
            incentive_multiplier: 0,
            incentive_start_year: 2,
            max_years: 4,
        },
        1000,
    )
    .unwrap();
    d.tournament.tournament_id
}

#[test]
fn store_appends_with_increasing_identifiers_and_latest_wins() {
    let mut s: VersionedEntityStore<i64> = VersionedEntityStore::new();
    let k = GroupKey { tournament_id: 1, user_id: 2, year: 0 };
    let id0 = s.append(9, 100, k, 10).unwrap();
    let id1 = s.append(9, 101, k, 20).unwrap();
    assert!(id0 < id1);
    let i = s.current_index(k).unwrap();
    assert_eq!(s.rows[i].payload, 20);
    let other = GroupKey { tournament_id: 1, user_id: 3, year: 0 };
    assert!(s.current_index(other).is_none());
}

#[test]
fn data_view_only_recent_keeps_the_latest_version() {
    let mut db = Db::new();
    let tid = create(&mut db, 7);
    tournament_data_new(
        &mut db,
        7,
        TournamentDataNewProps { tournament_id: tid, title: String::from("renamed"), active: true },
        1001,
    )
    .unwrap();
    let all = tournament_data_view(
        &db,
        TournamentDataViewProps {
            tournament_data_id: None,
            min_creation_time: None,
            max_creation_time: None,
            creator_user_id: None,
            tournament_id: Some(vec![tid]),
            active: None,
            only_recent: false,
        },
    )
    .unwrap();
    assert_eq!(all.len(), 2);
    assert_eq!(all[0].title, "cup");
    assert_eq!(all[1].title, "renamed");
    assert!(all[0].tournament_data_id < all[1].tournament_data_id);
    let recent = tournament_data_view(
        &db,
        TournamentDataViewProps {
            tournament_data_id: None,
            min_creation_time: None,
            max_creation_time: None,
            creator_user_id: None,
            tournament_id: Some(vec![tid]),
            active: None,
            only_recent: true,
        },
    )
    .unwrap();
    assert_eq!(recent.len(), 1);
    assert_eq!(recent[0].title, "renamed");
    // Hydration carries the referenced tournament.
    assert_eq!(recent[0].tournament.tournament_id, tid);
    assert_eq!(recent[0].tournament.creator_user_id, 7);
}

#[test]
fn membership_view_filters_by_active_flag() {
    let mut db = Db::new();
    let tid = create(&mut db, 7);
    tournament_membership_new(
        &mut db,
        8,
        TournamentMembershipNewProps { tournament_id: tid, active: true },
        1001,
    )
    .unwrap();
    tournament_membership_new(
        &mut db,
        9,
        TournamentMembershipNewProps { tournament_id: tid, active: false },
        1002,
    )
    .unwrap();
    let actives = tournament_membership_view(
        &db,
        TournamentMembershipViewProps {
            tournament_membership_id: None,
            min_creation_time: None,
            max_creation_time: None,
            creator_user_id: None,
            tournament_id: Some(vec![tid]),
            active: Some(true),
            only_recent: true,
        },
    )
    .unwrap();
    assert_eq!(actives.len(), 1);
    assert_eq!(actives[0].creator_user_id, 8);
}

#[test]
fn submission_view_filters_by_creator() {
    let mut db = Db::new();
    let tid = create(&mut db, 7);
    tournament_membership_new(
        &mut db,
        8,
        TournamentMembershipNewProps { tournament_id: tid, active: true },
        1001,
    )
    .unwrap();
    tournament_membership_new(
        &mut db,
        9,
        TournamentMembershipNewProps { tournament_id: tid, active: true },
        1002,
    )
    .unwrap();
    tournament_submission_new(
        &mut db,
        8,
        TournamentSubmissionNewProps { tournament_id: tid, amount: 3 },
        1003,
    )
    .unwrap();
    tournament_submission_new(
        &mut db,
        9,
        TournamentSubmissionNewProps { tournament_id: tid, amount: 4 },
        1004,
    )
    .unwrap();
    let subs = tournament_submission_view(
        &db,
        TournamentSubmissionViewProps {
            tournament_submission_id: None,
            min_creation_time: None,
            max_creation_time: None,
            creator_user_id: Some(vec![9]),
            tournament_id: Some(vec![tid]),
        },
    )
    .unwrap();
    assert_eq!(subs.len(), 1);
    assert_eq!(subs[0].amount, 4);
    assert_eq!(subs[0].creator_user_id, 9);
}

#[test]
fn year_view_lists_round_history_in_order() {
    let mut db = Db::new();
    let tid = create(&mut db, 7);
    minigame::handlers::tournament_year_new(
        &mut db,
        7,
        minigame::request::TournamentYearNewProps { tournament_id: tid },
        1001,
    )
    .unwrap();
    let all = tournament_year_view(
        &db,
        TournamentYearViewProps {
            tournament_year_id: None,
            min_creation_time: None,
            max_creation_time: None,
            creator_user_id: None,
            tournament_id: Some(vec![tid]),
            only_recent: false,
        },
    )
    .unwrap();
    assert_eq!(all.len(), 2);
    assert_eq!(all[0].current_year, 0);
    assert_eq!(all[1].current_year, 1);
    let recent = tournament_year_view(
        &db,
        TournamentYearViewProps {
            tournament_year_id: None,
            min_creation_time: None,
            max_creation_time: None,
            creator_user_id: None,
            tournament_id: Some(vec![tid]),
            only_recent: true,
        },
    )
    .unwrap();
    assert_eq!(recent.len(), 1);
    assert_eq!(recent[0].current_year, 1);
}

#[test]
fn demand_view_filters_by_user_and_time() {
    let mut db = Db::new();
    let tid = create(&mut db, 7);
    tournament_membership_new(
        &mut db,
        8,
        TournamentMembershipNewProps { tournament_id: tid, active: true },
        1001,
    )
    .unwrap();
    tournament_membership_new(
        &mut db,
        9,
        TournamentMembershipNewProps { tournament_id: tid, active: true },
        1002,
    )
    .unwrap();
    let of_user_9 = tournament_year_demand_view(
        &db,
        TournamentYearDemandViewProps {
            tournament_year_demand_id: None,
            min_creation_time: None,
            max_creation_time: None,
            user_id: Some(vec![9]),
            tournament_id: Some(vec![tid]),
        },
    )
    .unwrap();
    assert_eq!(of_user_9.len(), 1);
    assert_eq!(of_user_9[0].user_id, 9);
    assert_eq!(of_user_9[0].year, 0);
    let early = tournament_year_demand_view(
        &db,
        TournamentYearDemandViewProps {
            tournament_year_demand_id: None,
            min_creation_time: None,
            max_creation_time: Some(1001),
            user_id: None,
            tournament_id: Some(vec![tid]),
        },
    )
    .unwrap();
    assert_eq!(early.len(), 1);
    assert_eq!(early[0].user_id, 8);
}

#[test]
fn view_reports_nonexistent_when_a_row_references_no_tournament() {
    // A hand-built log may hold a data row whose tournament is missing;
    // hydration then fails for the whole view.
    let mut db = Db::new();
    let id = db.tournament_datas.append(
        7,
        1000,
        GroupKey { tournament_id: 99, user_id: 0, year: 0 },
        minigame::db_types::TournamentDataPayload { title: String::from("orphan"), active: true },
    );
    assert!(id.is_ok());
    let r = tournament_data_view(
        &db,
        TournamentDataViewProps {
            tournament_data_id: None,
            min_creation_time: None,
            max_creation_time: None,
            creator_user_id: None,
            tournament_id: None,
            active: None,
            only_recent: false,
        },
    );
    assert!(matches!(r, Err(AppError::TournamentNonexistent)));
}

#[test]
fn registry_lookup_finds_only_existing_tournaments() {
    let mut db = Db::new();
    let tid = create(&mut db, 7);
    let t = minigame::tournament_service::get_by_tournament_id(&db, tid).unwrap();
    assert_eq!(t.tournament_id, tid);
    assert_eq!(t.creator_user_id, 7);
    assert_eq!(t.max_years, 4);
    assert!(minigame::tournament_service::get_by_tournament_id(&db, tid + 1).is_none());
}

#[test]
fn membership_lookups_follow_the_latest_version() {
    let mut db = Db::new();
    let tid = create(&mut db, 7);
    assert!(
        minigame::tournament_membership_service::get_recent_by_tournament_user(&db, tid, 8)
            .is_none()
    );
    tournament_membership_new(
        &mut db,
        8,
        TournamentMembershipNewProps { tournament_id: tid, active: true },
        1001,
    )
    .unwrap();
    tournament_membership_new(
        &mut db,
        9,
        TournamentMembershipNewProps { tournament_id: tid, active: false },
        1002,
    )
    .unwrap();
    let m = minigame::tournament_membership_service::get_recent_by_tournament_user(&db, tid, 8)
        .unwrap();
    assert!(m.active);
    let all = minigame::tournament_membership_service::get_recent_by_tournament(&db, tid);
    assert_eq!(all.len(), 2);
    let actives = minigame::tournament_membership_service::get_recent_active_user_ids(&db, tid);
    assert_eq!(actives, vec![8]);
}

#[test]
fn auth_gate_failures_map_to_caller_errors() {
    assert_eq!(report_auth_err(AuthError::ApiKeyNonexistent), AppError::Unauthorized);
    assert_eq!(report_auth_err(AuthError::ApiKeyUnauthorized), AppError::Unauthorized);
    assert_eq!(report_auth_err(AuthError::InternalServerError), AppError::InternalServerError);
    assert_eq!(report_auth_err(AuthError::MethodNotAllowed), AppError::InternalServerError);
    assert_eq!(report_auth_err(AuthError::BadRequest), AppError::InternalServerError);
    assert_eq!(report_auth_err(AuthError::Network), AppError::InternalServerError);
    assert_eq!(report_auth_err(AuthError::Other), AppError::Unknown);
}

#[test]
fn error_kinds_have_stable_names() {
    assert_eq!(AppError::TournamentArchived.as_str(), "TOURNAMENT_ARCHIVED");
    assert_eq!(AppError::TournamentStarted.as_str(), "TOURNAMENT_STARTED");
    assert_eq!(AppError::TournamentMembershipInvalid.as_str(), "TOURNAMENT_MEMBERSHIP_INVALID");
    assert_eq!(AppError::TournamentMaxYearsAchieved.as_str(), "TOURNAMENT_MAX_YEARS_ACHIEVED");
    assert_eq!(AppError::InternalServerError.as_str(), "INTERNAL_SERVER_ERROR");
    assert_eq!(AppError::Unauthorized.as_str(), "UNAUTHORIZED");
}
