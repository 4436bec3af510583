//! Caller-facing error kinds and hydrated response shapes: each entity
//! response carries its referenced tournament in full.

use vstd::prelude::*;

verus! {

/// Typed error kinds surfaced to the caller.  Ownership failures are
/// deliberately reported as `TournamentNonexistent` so that they cannot be
/// told apart from a missing tournament.
#[derive(Clone, Copy, PartialEq, Eq, Structural, Debug)]
pub enum AppError {
    NoCapability,
    TournamentNonexistent,
    TournamentMaxYearsInvalid,
    TournamentIncentiveStartYearInvalid,
    TournamentSubmissionTestcaseIncomplete,
    TournamentSubmissionTestcaseFails,
    TournamentArchived,
    TournamentStarted,
    TournamentMembershipInvalid,
    TournamentMaxYearsAchieved,
    DecodeError,
    InternalServerError,
    MethodNotAllowed,
    Unauthorized,
    BadRequest,
    NotFound,
    Network,
    Unknown,
}

impl AppError {
    /// The stable name of the error kind, as it is reported to callers.
    pub fn as_str(&self) -> (r: &'static str)
        ensures
            r@ == self.spec_str(),
    {
        match self {
            AppError::NoCapability => "NO_CAPABILITY",
            AppError::TournamentNonexistent => "TOURNAMENT_NONEXISTENT",
            AppError::TournamentMaxYearsInvalid => "TOURNAMENT_MAX_YEARS_INVALID",
            AppError::TournamentIncentiveStartYearInvalid => "TOURNAMENT_INCENTIVE_START_YEAR_INVALID",
            AppError::TournamentSubmissionTestcaseIncomplete => "TOURNAMENT_SUBMISSION_TESTCASE_INCOMPLETE",
            AppError::TournamentSubmissionTestcaseFails => "TOURNAMENT_SUBMISSION_TESTCASE_FAILS",
            AppError::TournamentArchived => "TOURNAMENT_ARCHIVED",
            AppError::TournamentStarted => "TOURNAMENT_STARTED",
            AppError::TournamentMembershipInvalid => "TOURNAMENT_MEMBERSHIP_INVALID",
            AppError::TournamentMaxYearsAchieved => "TOURNAMENT_MAX_YEARS_ACHIEVED",
            AppError::DecodeError => "DECODE_ERROR",
            AppError::InternalServerError => "INTERNAL_SERVER_ERROR",
            AppError::MethodNotAllowed => "METHOD_NOT_ALLOWED",
            AppError::Unauthorized => "UNAUTHORIZED",
            AppError::BadRequest => "BAD_REQUEST",
            AppError::NotFound => "NOT_FOUND",
            AppError::Network => "NETWORK",
            AppError::Unknown => "UNKNOWN",
        }
    }

    pub open spec fn spec_str(self) -> Seq<char> {
        match self {
            AppError::NoCapability => "NO_CAPABILITY"@,
            AppError::TournamentNonexistent => "TOURNAMENT_NONEXISTENT"@,
            AppError::TournamentMaxYearsInvalid => "TOURNAMENT_MAX_YEARS_INVALID"@,
            AppError::TournamentIncentiveStartYearInvalid => "TOURNAMENT_INCENTIVE_START_YEAR_INVALID"@,
            AppError::TournamentSubmissionTestcaseIncomplete => "TOURNAMENT_SUBMISSION_TESTCASE_INCOMPLETE"@,
            AppError::TournamentSubmissionTestcaseFails => "TOURNAMENT_SUBMISSION_TESTCASE_FAILS"@,
            AppError::TournamentArchived => "TOURNAMENT_ARCHIVED"@,
            AppError::TournamentStarted => "TOURNAMENT_STARTED"@,
            AppError::TournamentMembershipInvalid => "TOURNAMENT_MEMBERSHIP_INVALID"@,
            AppError::TournamentMaxYearsAchieved => "TOURNAMENT_MAX_YEARS_ACHIEVED"@,
            AppError::DecodeError => "DECODE_ERROR"@,
            AppError::InternalServerError => "INTERNAL_SERVER_ERROR"@,
            AppError::MethodNotAllowed => "METHOD_NOT_ALLOWED"@,
            AppError::Unauthorized => "UNAUTHORIZED"@,
            AppError::BadRequest => "BAD_REQUEST"@,
            AppError::NotFound => "NOT_FOUND"@,
            AppError::Network => "NETWORK"@,
            AppError::Unknown => "UNKNOWN"@,
        }
    }
}

#[derive(Clone, Copy, PartialEq, Eq, Structural, Debug)]
pub struct Tournament {
    pub tournament_id: i64,
    pub creation_time: i64,
    pub creator_user_id: i64,
    pub baseline_demand: i64,
    pub incentive_multiplier: i64,
    pub incentive_start_year: i64,
    pub max_years: i64,
}

#[derive(Clone, Debug)]
pub struct TournamentData {
    pub tournament_data_id: i64,
    pub creation_time: i64,
    pub creator_user_id: i64,
    pub tournament: Tournament,
    pub title: String,
    pub active: bool,
}

#[derive(Clone, Copy, PartialEq, Eq, Structural, Debug)]
pub struct TournamentYear {
    pub tournament_year_id: i64,
    pub creation_time: i64,
    pub creator_user_id: i64,
    pub tournament: Tournament,
    pub current_year: i64,
}

#[derive(Clone, Copy, PartialEq, Eq, Structural, Debug)]
pub struct TournamentMembership {
    pub tournament_membership_id: i64,
    pub creation_time: i64,
    pub creator_user_id: i64,
    pub tournament: Tournament,
    pub active: bool,
}

#[derive(Clone, Copy, PartialEq, Eq, Structural, Debug)]
pub struct TournamentSubmission {
    pub tournament_submission_id: i64,
    pub creation_time: i64,
    pub creator_user_id: i64,
    pub tournament: Tournament,
    pub amount: i64,
    pub year: i64,
    pub autogenerated: bool,
}

#[derive(Clone, Copy, PartialEq, Eq, Structural, Debug)]
pub struct TournamentYearDemand {
    pub tournament_year_demand_id: i64,
    pub creation_time: i64,
    pub user_id: i64,
    pub tournament: Tournament,
    pub year: i64,
    pub demand: i64,
}

#[derive(Clone, Debug)]
pub struct Info {
    pub service: String,
    pub version_major: i64,
    pub version_minor: i64,
    pub version_rev: i64,
}

} // verus!
