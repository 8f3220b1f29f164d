//! An in-memory community store: communities, their members, and their
//! followers, with create/read/update/delete and follow/ignore, join/leave
//! operations whose behaviour is stated in contracts and verified.
//!
//! The store keeps three tables. A community row carries a storage-assigned
//! surrogate id and creation timestamp; the two relation tables link a
//! community id to an external federated user identifier. Neither relation
//! table enforces uniqueness of the (community id, federated user id) pair:
//! whether duplicates are permitted is left to the schema that a deployment
//! chooses, so the removal operations report how many rows matched.

pub mod community;
pub mod community_follower;
pub mod community_user;
pub mod db;
