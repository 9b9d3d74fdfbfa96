//! Verified core of a web front end for an AI-pilot competition: the
//! aggregation of pilots and matches into statistics, the read-through caches
//! for pilot names and identity profiles, and the rules of the HTTP API.

pub mod api;
pub mod api_client;
pub mod api_error;
pub mod competition;
pub mod cookie;
pub mod grouping;
pub mod home;
pub mod model;
pub mod outside;
pub mod overview;
pub mod read_through;
pub mod sorting;
pub mod sso_client;
pub mod stats;
pub mod tally;
pub mod users;
pub mod util;
