//! The incentive rule: deterministic zero case, range of the random case,
//! the asymmetric tie-break, and the demand schedule of a running
//! tournament.

use minigame::db_types::Db;
use minigame::handlers::tournament_membership_new;
use minigame::handlers::tournament_new;
use minigame::handlers::tournament_year_new;
use minigame::incentive::compute_demand;
use minigame::incentive::gen_random_incentive;
use minigame::incentive::incentive_from_draws;
use minigame::request::TournamentMembershipNewProps;
use minigame::request::TournamentNewProps;
use minigame::request::TournamentYearNewProps;
use minigame::tournament_year_demand_service;

#[test]
fn zero_magnitude_is_deterministically_zero() {
    for _ in 0..32 {
        assert_eq!(gen_random_incentive(0), 0);
    }
}

#[test]
fn incentive_stays_within_magnitude() {
    for _ in 0..256 {
        let r = gen_random_incentive(5);
        assert!(-5 <= r && r <= 5);
        let r = gen_random_incentive(-5);
        assert!(-5 <= r && r <= 5);
    }
}

#[test]
fn incentive_draws_vary() {
    let first = gen_random_incentive(1_000_000);
    let mut all_equal = true;
    for _ in 0..128 {
        if gen_random_incentive(1_000_000) != first {
            all_equal = false;
        }
    }
    assert!(!all_equal);
}

#[test]
fn tie_break_keeps_the_second_draw() {
    // The first draw wins only with strictly greater magnitude.
    assert_eq!(incentive_from_draws(3, -7), -7);
    assert_eq!(incentive_from_draws(-7, 3), -7);
    assert_eq!(incentive_from_draws(5, -5), -5);
    assert_eq!(incentive_from_draws(-5, 5), 5);
    assert_eq!(incentive_from_draws(0, 0), 0);
    assert_eq!(incentive_from_draws(8, 2), 8);
}

#[test]
fn demand_is_baseline_before_the_incentive_start_round() {
    assert_eq!(compute_demand(10, 4, 0, 3), 10);
    assert_eq!(compute_demand(10, 4, 2, 3), 10);
    assert_eq!(compute_demand(10, 0, 3, 3), 10);
    let d = compute_demand(10, 4, 3, 3);
    assert!(6 <= d && d <= 14);
}

fn demands_by_year(db: &Db, tid: i64, year: i64) -> Vec<i64> {
    tournament_year_demand_service::get_recent_by_tournament_id(db, tid)
        .into_iter()
        .filter(|d| d.year == year)
        .map(|d| d.demand)
        .collect()
}

#[test]
fn demand_schedule_with_fixed_baseline_and_no_magnitude() {
    let mut db = Db::new();
    let d = tournament_new(
        &mut db,
        7,
        TournamentNewProps {
            title: String::from("cup"),
            baseline_demand: 10,
            incentive_multiplier: 0,
            incentive_start_year: 3,
            max_years: 5,
        },
        1000,
    )
    .unwrap();
    let tid = d.tournament.tournament_id;
    tournament_membership_new(
        &mut db,
        8,
        TournamentMembershipNewProps { tournament_id: tid, active: true },
        1001,
    )
    .unwrap();
    for n in 1..=5i64 {
        tournament_year_new(&mut db, 7, TournamentYearNewProps { tournament_id: tid }, 1001 + n)
            .unwrap();
    }
    // With no incentive magnitude the demand is exactly the baseline in
    // every round, incentive rounds included.
    for year in 0..=5i64 {
        assert_eq!(demands_by_year(&db, tid, year), vec![10]);
    }
}

#[test]
fn demand_schedule_with_magnitude_starts_at_the_incentive_round() {
    let mut db = Db::new();
    let d = tournament_new(
        &mut db,
        7,
        TournamentNewProps {
            title: String::from("cup"),
            baseline_demand: 10,
            incentive_multiplier: 4,
            incentive_start_year: 3,
            max_years: 5,
        },
        1000,
    )
    .unwrap();
    let tid = d.tournament.tournament_id;
    tournament_membership_new(
        &mut db,
        8,
        TournamentMembershipNewProps { tournament_id: tid, active: true },
        1001,
    )
    .unwrap();
    for n in 1..=4i64 {
        tournament_year_new(&mut db, 7, TournamentYearNewProps { tournament_id: tid }, 1001 + n)
            .unwrap();
    }
    // Before the incentive start round the demand is exactly the baseline.
    for year in 0..=2i64 {
        assert_eq!(demands_by_year(&db, tid, year), vec![10]);
    }
    // From the incentive start round on it is baseline plus an incentive of
    // magnitude at most 4.
    for year in 3..=4i64 {
        let ds = demands_by_year(&db, tid, year);
        assert_eq!(ds.len(), 1);
        assert!(6 <= ds[0] && ds[0] <= 14);
    }
}
