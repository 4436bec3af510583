//! Core of a multi-round tournament service: an append-only versioned record
//! store, typed read access to tournament state, a randomized incentive
//! generator, and the lifecycle coordinator that performs atomic multi-entity
//! transitions (create, revise, advance, join, submit).
//!
//! Every coordinator operation takes the whole database by exclusive
//! reference, so operations are serialized by construction; each one either
//! performs all of its appends or, on any failure, leaves the database
//! exactly as it was.  No record is ever updated or deleted: the current
//! state of an entity is always derived from its log as the row with the
//! greatest identifier sharing its grouping key.

use vstd::prelude::*;

pub mod db_types;
pub mod handlers;
pub mod incentive;
pub mod laws;
pub mod request;
pub mod response;
pub mod store;
pub mod tournament_data_service;
pub mod tournament_membership_service;
pub mod tournament_service;
pub mod tournament_submission_service;
pub mod tournament_year_demand_service;
pub mod tournament_year_service;

verus! {

/// Process-level configuration carried alongside the service.
pub struct Config {
    pub site_external_url: String,
}

} // verus!
