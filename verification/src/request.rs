//! Caller-facing request shapes.  Callers are authenticated before these
//! reach the coordinator, so requests carry no credential here; the
//! surrounding process resolves the caller to a user id first.

use vstd::prelude::*;

verus! {

#[derive(Clone, Debug)]
pub struct TournamentNewProps {
    pub title: String,
    pub baseline_demand: i64,
    pub incentive_multiplier: i64,
    pub incentive_start_year: i64,
    pub max_years: i64,
}

#[derive(Clone, Debug)]
pub struct TournamentDataNewProps {
    pub tournament_id: i64,
    pub title: String,
    pub active: bool,
}

#[derive(Clone, Copy, PartialEq, Eq, Structural, Debug)]
pub struct TournamentYearNewProps {
    pub tournament_id: i64,
}

#[derive(Clone, Copy, PartialEq, Eq, Structural, Debug)]
pub struct TournamentMembershipNewProps {
    pub tournament_id: i64,
    pub active: bool,
}

#[derive(Clone, Copy, PartialEq, Eq, Structural, Debug)]
pub struct TournamentSubmissionNewProps {
    pub tournament_id: i64,
    pub amount: i64,
}

#[derive(Clone, Debug)]
pub struct TournamentDataViewProps {
    pub tournament_data_id: Option<Vec<i64>>,
    pub min_creation_time: Option<i64>,
    pub max_creation_time: Option<i64>,
    pub creator_user_id: Option<Vec<i64>>,
    pub tournament_id: Option<Vec<i64>>,
    pub active: Option<bool>,
    pub only_recent: bool,
}

#[derive(Clone, Debug)]
pub struct TournamentYearViewProps {
    pub tournament_year_id: Option<Vec<i64>>,
    pub min_creation_time: Option<i64>,
    pub max_creation_time: Option<i64>,
    pub creator_user_id: Option<Vec<i64>>,
    pub tournament_id: Option<Vec<i64>>,
    pub only_recent: bool,
}

#[derive(Clone, Debug)]
pub struct TournamentMembershipViewProps {
    pub tournament_membership_id: Option<Vec<i64>>,
    pub min_creation_time: Option<i64>,
    pub max_creation_time: Option<i64>,
    pub creator_user_id: Option<Vec<i64>>,
    pub tournament_id: Option<Vec<i64>>,
    pub active: Option<bool>,
    pub only_recent: bool,
}

#[derive(Clone, Debug)]
pub struct TournamentSubmissionViewProps {
    pub tournament_submission_id: Option<Vec<i64>>,
    pub min_creation_time: Option<i64>,
    pub max_creation_time: Option<i64>,
    pub creator_user_id: Option<Vec<i64>>,
    pub tournament_id: Option<Vec<i64>>,
}

#[derive(Clone, Debug)]
pub struct TournamentYearDemandViewProps {
    pub tournament_year_demand_id: Option<Vec<i64>>,
    pub min_creation_time: Option<i64>,
    pub max_creation_time: Option<i64>,
    pub user_id: Option<Vec<i64>>,
    pub tournament_id: Option<Vec<i64>>,
}

} // verus!
