//! The community membership table: rows linking an external federated user
//! identifier to a community it has joined, with the join/leave operations.

use vstd::prelude::*;

use crate::db::Db;
use crate::db::DbError;

verus! {

/// A persisted membership row. `id` is assigned by the store and unique;
/// `start_time` is the insertion timestamp in seconds since the Unix epoch.
#[derive(Debug)]
pub struct CommunityUser {
    pub id: i32,
    pub community_id: i32,
    pub fedi_user_id: String,
    pub start_time: i64,
}

/// The caller-supplied payload for a join: the community and the external
/// federated account. `id` and `start_time` are storage-assigned.
#[derive(Debug, Clone)]
pub struct CommunityUserForm {
    pub community_id: i32,
    pub fedi_user_id: String,
}

impl PartialEq for CommunityUser {
    fn eq(&self, other: &CommunityUser) -> (r: bool) {
        self.id == other.id && self.community_id == other.community_id && self.fedi_user_id
            == other.fedi_user_id && self.start_time == other.start_time
    }
}

impl vstd::std_specs::cmp::PartialEqSpecImpl for CommunityUser {
    open spec fn obeys_eq_spec() -> bool {
        true
    }

    open spec fn eq_spec(&self, other: &CommunityUser) -> bool {
        self.id == other.id && self.community_id == other.community_id && self.fedi_user_id@
            == other.fedi_user_id@ && self.start_time == other.start_time
    }
}

/// No two rows share a surrogate id.
pub open spec fn member_ids_distinct(rows: Seq<CommunityUser>) -> bool {
    forall|i: int, j: int|
        0 <= i < j < rows.len() ==> (#[trigger] rows[i]).id != (#[trigger] rows[j]).id
}

/// The row links exactly this community and this federated user.
pub open spec fn member_matches(row: CommunityUser, cid: int, uid: Seq<char>) -> bool {
    row.community_id == cid && row.fedi_user_id@ == uid
}

/// How many rows link the given community and federated user.
pub open spec fn count_matching_members(rows: Seq<CommunityUser>, cid: int, uid: Seq<char>) -> int
    decreases rows.len(),
{
    if rows.len() == 0 {
        0
    } else {
        count_matching_members(rows.drop_last(), cid, uid) + if member_matches(
            rows.last(),
            cid,
            uid,
        ) {
            1int
        } else {
            0int
        }
    }
}

/// The rows that survive a leave of the given pair, in their original order.
pub open spec fn members_without(rows: Seq<CommunityUser>, cid: int, uid: Seq<char>) -> Seq<
    CommunityUser,
> {
    rows.filter(|m: CommunityUser| !member_matches(m, cid, uid))
}

/// A field-for-field copy, equal to the original row.
fn clone_member(m: &CommunityUser) -> (r: CommunityUser)
    ensures
        r == *m,
{
    CommunityUser {
        id: m.id,
        community_id: m.community_id,
        fedi_user_id: m.fedi_user_id.clone(),
        start_time: m.start_time,
    }
}

proof fn lemma_members_without_unfold(rows: Seq<CommunityUser>, cid: int, uid: Seq<char>)
    requires
        rows.len() > 0,
    ensures
        !member_matches(rows.last(), cid, uid) ==> members_without(rows, cid, uid)
            == members_without(rows.drop_last(), cid, uid).push(rows.last()),
        member_matches(rows.last(), cid, uid) ==> members_without(rows, cid, uid)
            == members_without(rows.drop_last(), cid, uid),
{
    reveal(Seq::filter);
}

proof fn lemma_members_without_push(
    rows: Seq<CommunityUser>,
    m: CommunityUser,
    cid: int,
    uid: Seq<char>,
)
    ensures
        !member_matches(m, cid, uid) ==> members_without(rows.push(m), cid, uid) == members_without(
            rows,
            cid,
            uid,
        ).push(m),
        member_matches(m, cid, uid) ==> members_without(rows.push(m), cid, uid) == members_without(
            rows,
            cid,
            uid,
        ),
        count_matching_members(rows.push(m), cid, uid) == count_matching_members(rows, cid, uid)
            + if member_matches(m, cid, uid) {
            1int
        } else {
            0int
        },
{
    assert(rows.push(m).drop_last() =~= rows);
    assert(rows.push(m).last() == m);
    lemma_members_without_unfold(rows.push(m), cid, uid);
}

proof fn lemma_members_without_props(rows: Seq<CommunityUser>, cid: int, uid: Seq<char>)
    ensures
        0 <= count_matching_members(rows, cid, uid) <= rows.len(),
        members_without(rows, cid, uid).len() == rows.len() - count_matching_members(
            rows,
            cid,
            uid,
        ),
        count_matching_members(rows, cid, uid) == 0 ==> members_without(rows, cid, uid) == rows,
        forall|k: int|
            0 <= k < members_without(rows, cid, uid).len() ==> !member_matches(
                #[trigger] members_without(rows, cid, uid)[k],
                cid,
                uid,
            ),
        forall|k: int|
            0 <= k < members_without(rows, cid, uid).len() ==> rows.contains(
                #[trigger] members_without(rows, cid, uid)[k],
            ),
        member_ids_distinct(rows) ==> member_ids_distinct(members_without(rows, cid, uid)),
    decreases rows.len(),
{
    if rows.len() == 0 {
        reveal(Seq::filter);
        assert(members_without(rows, cid, uid) =~= rows);
    } else {
        let s = rows.drop_last();
        let x = rows.last();
        let w = members_without(rows, cid, uid);
        let ws = members_without(s, cid, uid);
        lemma_members_without_props(s, cid, uid);
        lemma_members_without_unfold(rows, cid, uid);
        assert(member_ids_distinct(rows) ==> member_ids_distinct(s)) by {
            if member_ids_distinct(rows) {
                assert forall|i: int, j: int| 0 <= i < j < s.len() implies (#[trigger] s[i]).id != (
                #[trigger] s[j]).id by {
                    assert(s[i] == rows[i] && s[j] == rows[j]);
                }
            }
        }
        assert forall|k: int| 0 <= k < ws.len() implies rows.contains(ws[k]) by {
            assert(s.contains(ws[k]));
            let m = choose|m: int| 0 <= m < s.len() && s[m] == ws[k];
            assert(rows[m] == ws[k]);
        }
        if member_matches(x, cid, uid) {
            assert(w == ws);
        } else {
            assert(w == ws.push(x));
            assert(count_matching_members(rows, cid, uid) == 0 ==> w == rows) by {
                if count_matching_members(rows, cid, uid) == 0 {
                    assert(ws == s);
                    assert(s.push(x) =~= rows);
                }
            }
            assert forall|k: int| 0 <= k < w.len() implies !member_matches(w[k], cid, uid) by {
                if k < ws.len() {
                    assert(w[k] == ws[k]);
                } else {
                    assert(w[k] == x);
                }
            }
            if member_ids_distinct(rows) {
                assert forall|k: int| 0 <= k < ws.len() implies (#[trigger] ws[k]).id != x.id by {
                    assert(s.contains(ws[k]));
                    let m = choose|m: int| 0 <= m < s.len() && s[m] == ws[k];
                    assert(rows[m].id != rows[rows.len() - 1].id);
                }
                assert forall|i: int, j: int| 0 <= i < j < w.len() implies (#[trigger] w[i]).id != (
                #[trigger] w[j]).id by {
                    if j < ws.len() {
                        assert(w[i] == ws[i] && w[j] == ws[j]);
                    } else {
                        assert(w[i] == ws[i] && w[j] == x);
                    }
                }
            }
        }
    }
}

proof fn lemma_count_matching_members_zero(rows: Seq<CommunityUser>, cid: int, uid: Seq<char>)
    ensures
        count_matching_members(rows, cid, uid) == 0 <==> (forall|k: int|
            0 <= k < rows.len() ==> !member_matches(#[trigger] rows[k], cid, uid)),
    decreases rows.len(),
{
    if rows.len() > 0 {
        let s = rows.drop_last();
        lemma_count_matching_members_zero(s, cid, uid);
        lemma_members_without_props(s, cid, uid);
        if count_matching_members(rows, cid, uid) == 0 {
            assert forall|k: int|
                0 <= k < rows.len() implies !member_matches(#[trigger] rows[k], cid, uid) by {
                if k < rows.len() - 1 {
                    assert(rows[k] == s[k]);
                } else {
                    assert(rows[k] == rows.last());
                }
            }
        } else {
            if count_matching_members(s, cid, uid) > 0 {
                let k = choose|k: int| 0 <= k < s.len() && member_matches(s[k], cid, uid);
                assert(member_matches(rows[k], cid, uid));
            } else {
                assert(member_matches(rows[rows.len() - 1], cid, uid));
            }
        }
    }
}

impl CommunityUser {
    /// Inserts a membership row linking the form's community and federated
    /// user. The store assigns the next free id and stamps the row with the
    /// supplied clock value. On an in-memory store the insert always
    /// succeeds: no uniqueness of the pair is enforced at this layer, so a
    /// repeated join yields a duplicate row.
    pub fn join(db: &mut Db, form: &CommunityUserForm, now: i64) -> (r: Result<
        CommunityUser,
        DbError,
    >)
        requires
            old(db).wf(),
            old(db).next_member_id() < i32::MAX as int,
        ensures
            final(db).wf(),
            r is Ok,
            (r matches Ok(m) ==> m.id as int == old(db).next_member_id() && m.id > 0
                && m.community_id == form.community_id && m.fedi_user_id@ == form.fedi_user_id@
                && m.start_time == now && final(db).members() == old(db).members().push(m)),
            final(db).next_member_id() == old(db).next_member_id() + 1,
            final(db).communities() == old(db).communities(),
            final(db).followers() == old(db).followers(),
            final(db).next_community_id() == old(db).next_community_id(),
            final(db).next_follower_id() == old(db).next_follower_id(),
    {
        let id = db.user_next_id;
        let row = CommunityUser {
            id,
            community_id: form.community_id,
            fedi_user_id: form.fedi_user_id.clone(),
            start_time: now,
        };
        let record = clone_member(&row);
        db.user_rows.push(row);
        db.user_next_id = id + 1;
        proof {
            assert forall|i: int, j: int| 0 <= i < j < db.members().len() implies (
            #[trigger] db.members()[i]).id != (#[trigger] db.members()[j]).id by {
                if j == db.members().len() - 1 {
                    assert(db.members()[i] == old(db).members()[i]);
                }
            }
        }
        Ok(record)
    }

    /// Removes every membership row matching both the form's community id
    /// and federated user id, and returns how many rows were removed. A zero
    /// match is not an error.
    pub fn leave(db: &mut Db, form: &CommunityUserForm) -> (r: usize)
        requires
            old(db).wf(),
        ensures
            final(db).wf(),
            final(db).members() == members_without(
                old(db).members(),
                form.community_id as int,
                form.fedi_user_id@,
            ),
            r as int == count_matching_members(
                old(db).members(),
                form.community_id as int,
                form.fedi_user_id@,
            ),
            count_matching_members(
                final(db).members(),
                form.community_id as int,
                form.fedi_user_id@,
            ) == 0,
            final(db).next_member_id() == old(db).next_member_id(),
            final(db).communities() == old(db).communities(),
            final(db).followers() == old(db).followers(),
            final(db).next_community_id() == old(db).next_community_id(),
            final(db).next_follower_id() == old(db).next_follower_id(),
    {
        let ghost cid = form.community_id as int;
        let ghost uid = form.fedi_user_id@;
        let mut kept: Vec<CommunityUser> = Vec::new();
        let n = db.user_rows.len();
        let mut i: usize = 0;
        while i < n
            invariant
                *db == *old(db),
                n == db.members().len(),
                i <= n,
                cid == form.community_id as int,
                uid == form.fedi_user_id@,
                kept@ == members_without(db.members().subrange(0, i as int), cid, uid),
                kept@.len() <= i,
            decreases n - i,
        {
            proof {
                assert(db.members().subrange(0, i as int + 1) =~= db.members().subrange(
                    0,
                    i as int,
                ).push(db.members()[i as int]));
                lemma_members_without_push(
                    db.members().subrange(0, i as int),
                    db.members()[i as int],
                    cid,
                    uid,
                );
            }
            let row_matches = db.user_rows[i].community_id == form.community_id
                && db.user_rows[i].fedi_user_id == form.fedi_user_id;
            if !row_matches {
                let m = clone_member(&db.user_rows[i]);
                kept.push(m);
            }
            i += 1;
        }
        proof {
            assert(db.members().subrange(0, n as int) =~= db.members());
            lemma_members_without_props(db.members(), cid, uid);
        }
        let r = n - kept.len();
        db.user_rows = kept;
        proof {
            let w = db.members();
            let orig = old(db).members();
            lemma_count_matching_members_zero(w, cid, uid);
            assert forall|k: int| 0 <= k < w.len() implies 0 < (#[trigger] w[k]).id
                < db.next_member_id() by {
                assert(orig.contains(w[k]));
                let m = choose|m: int| 0 <= m < orig.len() && orig[m] == w[k];
                assert(0 < orig[m].id < old(db).next_member_id());
            }
        }
        r
    }
}

/// Law: the membership table's join/leave pair obeys the same contract as
/// the follower table's follow/ignore pair — joining a pair that has no
/// matching rows and then leaving the same pair removes exactly the one row
/// the join inserted and restores the table to its prior contents.
pub proof fn lemma_join_then_leave(rows: Seq<CommunityUser>, m: CommunityUser)
    requires
        count_matching_members(rows, m.community_id as int, m.fedi_user_id@) == 0,
    ensures
        count_matching_members(rows.push(m), m.community_id as int, m.fedi_user_id@) == 1,
        members_without(rows.push(m), m.community_id as int, m.fedi_user_id@) == rows,
{
    let cid = m.community_id as int;
    let uid = m.fedi_user_id@;
    lemma_members_without_props(rows, cid, uid);
    lemma_members_without_push(rows, m, cid, uid);
}

} // verus!
