//! The store itself: three in-memory tables and the id sequences that assign
//! surrogate keys, together with the store's well-formedness invariant.

use vstd::prelude::*;

use crate::community::community_ids_distinct;
use crate::community::Community;
use crate::community_follower::follower_ids_distinct;
use crate::community_follower::CommunityFollower;
use crate::community_user::member_ids_distinct;
use crate::community_user::CommunityUser;

verus! {

/// Why a store operation failed.
///
/// The insert operations cannot fail on an in-memory store; the by-key read
/// and update report a missing row as a value rather than aborting, so that
/// callers may branch on it.
#[derive(Debug, PartialEq, Eq, Structural, Clone, Copy)]
pub enum DbError {
    /// No row carries the requested primary key.
    NotFound,
}

/// The store: one row vector and one id sequence per table. Each operation
/// is a method of the record type it concerns and takes the store the way a
/// query takes its connection.
pub struct Db {
    pub community_rows: Vec<Community>,
    pub community_next_id: i32,
    pub user_rows: Vec<CommunityUser>,
    pub user_next_id: i32,
    pub follower_rows: Vec<CommunityFollower>,
    pub follower_next_id: i32,
}

impl Db {
    /// The community table's rows, in insertion order.
    pub open spec fn communities(&self) -> Seq<Community> {
        self.community_rows@
    }

    /// The id the next community insert will be assigned.
    pub open spec fn next_community_id(&self) -> int {
        self.community_next_id as int
    }

    /// The membership table's rows, in insertion order.
    pub open spec fn members(&self) -> Seq<CommunityUser> {
        self.user_rows@
    }

    /// The id the next membership insert will be assigned.
    pub open spec fn next_member_id(&self) -> int {
        self.user_next_id as int
    }

    /// The follower table's rows, in insertion order.
    pub open spec fn followers(&self) -> Seq<CommunityFollower> {
        self.follower_rows@
    }

    /// The id the next follower insert will be assigned.
    pub open spec fn next_follower_id(&self) -> int {
        self.follower_next_id as int
    }

    /// Well-formedness: every assigned id is positive, below the table's id
    /// sequence, and unique within its table. Established by `new` and
    /// preserved by every operation.
    pub open spec fn wf(&self) -> bool {
        &&& 1 <= self.next_community_id() <= i32::MAX as int
        &&& 1 <= self.next_member_id() <= i32::MAX as int
        &&& 1 <= self.next_follower_id() <= i32::MAX as int
        &&& forall|i: int|
            0 <= i < self.communities().len() ==> 0 < (#[trigger] self.communities()[i]).id
                < self.next_community_id()
        &&& forall|i: int|
            0 <= i < self.members().len() ==> 0 < (#[trigger] self.members()[i]).id
                < self.next_member_id()
        &&& forall|i: int|
            0 <= i < self.followers().len() ==> 0 < (#[trigger] self.followers()[i]).id
                < self.next_follower_id()
        &&& community_ids_distinct(self.communities())
        &&& member_ids_distinct(self.members())
        &&& follower_ids_distinct(self.followers())
    }

    /// An empty store: no rows, and every id sequence starting at 1.
    pub fn new() -> (db: Db)
        ensures
            db.wf(),
            db.communities() == Seq::<Community>::empty(),
            db.members() == Seq::<CommunityUser>::empty(),
            db.followers() == Seq::<CommunityFollower>::empty(),
            db.next_community_id() == 1,
            db.next_member_id() == 1,
            db.next_follower_id() == 1,
    {
        Db {
            community_rows: Vec::new(),
            community_next_id: 1,
            user_rows: Vec::new(),
            user_next_id: 1,
            follower_rows: Vec::new(),
            follower_next_id: 1,
        }
    }
}

} // verus!
