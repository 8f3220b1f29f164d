//! The community follower table: rows linking an external federated user
//! identifier to a community it follows, with the follow/ignore operations.

use vstd::prelude::*;

use crate::db::Db;
use crate::db::DbError;

verus! {

/// A persisted follower row. `id` is assigned by the store and unique;
/// `start_time` is the insertion timestamp in seconds since the Unix epoch.
#[derive(Debug)]
pub struct CommunityFollower {
    pub id: i32,
    pub community_id: i32,
    pub fedi_user_id: String,
    pub start_time: i64,
}

/// The caller-supplied payload for a follow: the community and the external
/// federated account. `id` and `start_time` are storage-assigned.
#[derive(Debug, Clone)]
pub struct CommunityFollowerForm {
    pub community_id: i32,
    pub fedi_user_id: String,
}

impl PartialEq for CommunityFollower {
    fn eq(&self, other: &CommunityFollower) -> (r: bool) {
        self.id == other.id && self.community_id == other.community_id && self.fedi_user_id
            == other.fedi_user_id && self.start_time == other.start_time
    }
}

impl vstd::std_specs::cmp::PartialEqSpecImpl for CommunityFollower {
    open spec fn obeys_eq_spec() -> bool {
        true
    }

    open spec fn eq_spec(&self, other: &CommunityFollower) -> bool {
        self.id == other.id && self.community_id == other.community_id && self.fedi_user_id@
            == other.fedi_user_id@ && self.start_time == other.start_time
    }
}

/// No two rows share a surrogate id.
pub open spec fn follower_ids_distinct(rows: Seq<CommunityFollower>) -> bool {
    forall|i: int, j: int|
        0 <= i < j < rows.len() ==> (#[trigger] rows[i]).id != (#[trigger] rows[j]).id
}

/// The row links exactly this community and this federated user.
pub open spec fn follower_matches(row: CommunityFollower, cid: int, uid: Seq<char>) -> bool {
    row.community_id == cid && row.fedi_user_id@ == uid
}

/// How many rows link the given community and federated user.
pub open spec fn count_matching_followers(
    rows: Seq<CommunityFollower>,
    cid: int,
    uid: Seq<char>,
) -> int
    decreases rows.len(),
{
    if rows.len() == 0 {
        0
    } else {
        count_matching_followers(rows.drop_last(), cid, uid) + if follower_matches(
            rows.last(),
            cid,
            uid,
        ) {
            1int
        } else {
            0int
        }
    }
}

/// The rows that survive an ignore of the given pair, in their original order.
pub open spec fn followers_without(
    rows: Seq<CommunityFollower>,
    cid: int,
    uid: Seq<char>,
) -> Seq<CommunityFollower> {
    rows.filter(|f: CommunityFollower| !follower_matches(f, cid, uid))
}

/// A field-for-field copy, equal to the original row.
fn clone_follower(f: &CommunityFollower) -> (r: CommunityFollower)
    ensures
        r == *f,
{
    CommunityFollower {
        id: f.id,
        community_id: f.community_id,
        fedi_user_id: f.fedi_user_id.clone(),
        start_time: f.start_time,
    }
}

proof fn lemma_followers_without_unfold(rows: Seq<CommunityFollower>, cid: int, uid: Seq<char>)
    requires
        rows.len() > 0,
    ensures
        !follower_matches(rows.last(), cid, uid) ==> followers_without(rows, cid, uid)
            == followers_without(rows.drop_last(), cid, uid).push(rows.last()),
        follower_matches(rows.last(), cid, uid) ==> followers_without(rows, cid, uid)
            == followers_without(rows.drop_last(), cid, uid),
{
    reveal(Seq::filter);
}

proof fn lemma_followers_without_push(
    rows: Seq<CommunityFollower>,
    f: CommunityFollower,
    cid: int,
    uid: Seq<char>,
)
    ensures
        !follower_matches(f, cid, uid) ==> followers_without(rows.push(f), cid, uid)
            == followers_without(rows, cid, uid).push(f),
        follower_matches(f, cid, uid) ==> followers_without(rows.push(f), cid, uid)
            == followers_without(rows, cid, uid),
        count_matching_followers(rows.push(f), cid, uid) == count_matching_followers(
            rows,
            cid,
            uid,
        ) + if follower_matches(f, cid, uid) {
            1int
        } else {
            0int
        },
{
    assert(rows.push(f).drop_last() =~= rows);
    assert(rows.push(f).last() == f);
    lemma_followers_without_unfold(rows.push(f), cid, uid);
}

proof fn lemma_followers_without_props(rows: Seq<CommunityFollower>, cid: int, uid: Seq<char>)
    ensures
        0 <= count_matching_followers(rows, cid, uid) <= rows.len(),
        followers_without(rows, cid, uid).len() == rows.len() - count_matching_followers(
            rows,
            cid,
            uid,
        ),
        count_matching_followers(rows, cid, uid) == 0 ==> followers_without(rows, cid, uid) == rows,
        forall|k: int|
            0 <= k < followers_without(rows, cid, uid).len() ==> !follower_matches(
                #[trigger] followers_without(rows, cid, uid)[k],
                cid,
                uid,
            ),
        forall|k: int|
            0 <= k < followers_without(rows, cid, uid).len() ==> rows.contains(
                #[trigger] followers_without(rows, cid, uid)[k],
            ),
        follower_ids_distinct(rows) ==> follower_ids_distinct(followers_without(rows, cid, uid)),
    decreases rows.len(),
{
    if rows.len() == 0 {
        reveal(Seq::filter);
        assert(followers_without(rows, cid, uid) =~= rows);
    } else {
        let s = rows.drop_last();
        let x = rows.last();
        let w = followers_without(rows, cid, uid);
        let ws = followers_without(s, cid, uid);
        lemma_followers_without_props(s, cid, uid);
        lemma_followers_without_unfold(rows, cid, uid);
        assert(follower_ids_distinct(rows) ==> follower_ids_distinct(s)) by {
            if follower_ids_distinct(rows) {
                assert forall|i: int, j: int| 0 <= i < j < s.len() implies (#[trigger] s[i]).id != (
                #[trigger] s[j]).id by {
                    assert(s[i] == rows[i] && s[j] == rows[j]);
                }
            }
        }
        assert forall|k: int| 0 <= k < ws.len() implies rows.contains(ws[k]) by {
            assert(s.contains(ws[k]));
            let m = choose|m: int| 0 <= m < s.len() && s[m] == ws[k];
            assert(rows[m] == ws[k]);
        }
        if follower_matches(x, cid, uid) {
            assert(w == ws);
        } else {
            assert(w == ws.push(x));
            assert(count_matching_followers(rows, cid, uid) == 0 ==> w == rows) by {
                if count_matching_followers(rows, cid, uid) == 0 {
                    assert(ws == s);
                    assert(s.push(x) =~= rows);
                }
            }
            assert forall|k: int| 0 <= k < w.len() implies !follower_matches(w[k], cid, uid) by {
                if k < ws.len() {
                    assert(w[k] == ws[k]);
                } else {
                    assert(w[k] == x);
                }
            }
            if follower_ids_distinct(rows) {
                assert forall|k: int| 0 <= k < ws.len() implies (#[trigger] ws[k]).id != x.id by {
                    assert(s.contains(ws[k]));
                    let m = choose|m: int| 0 <= m < s.len() && s[m] == ws[k];
                    assert(rows[m].id != rows[rows.len() - 1].id);
                }
                assert forall|i: int, j: int| 0 <= i < j < w.len() implies (#[trigger] w[i]).id != (
                #[trigger] w[j]).id by {
                    if j < ws.len() {
                        assert(w[i] == ws[i] && w[j] == ws[j]);
                    } else {
                        assert(w[i] == ws[i] && w[j] == x);
                    }
                }
            }
        }
    }
}

proof fn lemma_count_matching_followers_zero(rows: Seq<CommunityFollower>, cid: int, uid: Seq<char>)
    ensures
        count_matching_followers(rows, cid, uid) == 0 <==> (forall|k: int|
            0 <= k < rows.len() ==> !follower_matches(#[trigger] rows[k], cid, uid)),
    decreases rows.len(),
{
    if rows.len() > 0 {
        let s = rows.drop_last();
        lemma_count_matching_followers_zero(s, cid, uid);
        lemma_followers_without_props(s, cid, uid);
        if count_matching_followers(rows, cid, uid) == 0 {
            assert forall|k: int|
                0 <= k < rows.len() implies !follower_matches(#[trigger] rows[k], cid, uid) by {
                if k < rows.len() - 1 {
                    assert(rows[k] == s[k]);
                } else {
                    assert(rows[k] == rows.last());
                }
            }
        } else {
            if count_matching_followers(s, cid, uid) > 0 {
                let k = choose|k: int| 0 <= k < s.len() && follower_matches(s[k], cid, uid);
                assert(follower_matches(rows[k], cid, uid));
            } else {
                assert(follower_matches(rows[rows.len() - 1], cid, uid));
            }
        }
    }
}

impl CommunityFollower {
    /// Inserts a follower row linking the form's community and federated
    /// user. The store assigns the next free id and stamps the row with the
    /// supplied clock value. On an in-memory store the insert always
    /// succeeds: no uniqueness of the pair is enforced at this layer, so a
    /// repeated follow yields a duplicate row.
    pub fn follow(db: &mut Db, form: &CommunityFollowerForm, now: i64) -> (r: Result<
        CommunityFollower,
        DbError,
    >)
        requires
            old(db).wf(),
            old(db).next_follower_id() < i32::MAX as int,
        ensures
            final(db).wf(),
            r is Ok,
            (r matches Ok(f) ==> f.id as int == old(db).next_follower_id() && f.id > 0
                && f.community_id == form.community_id && f.fedi_user_id@ == form.fedi_user_id@
                && f.start_time == now && final(db).followers() == old(db).followers().push(f)),
            final(db).next_follower_id() == old(db).next_follower_id() + 1,
            final(db).communities() == old(db).communities(),
            final(db).members() == old(db).members(),
            final(db).next_community_id() == old(db).next_community_id(),
            final(db).next_member_id() == old(db).next_member_id(),
    {
        let id = db.follower_next_id;
        let row = CommunityFollower {
            id,
            community_id: form.community_id,
            fedi_user_id: form.fedi_user_id.clone(),
            start_time: now,
        };
        let record = clone_follower(&row);
        db.follower_rows.push(row);
        db.follower_next_id = id + 1;
        proof {
            assert forall|i: int, j: int| 0 <= i < j < db.followers().len() implies (
            #[trigger] db.followers()[i]).id != (#[trigger] db.followers()[j]).id by {
                if j == db.followers().len() - 1 {
                    assert(db.followers()[i] == old(db).followers()[i]);
                }
            }
        }
        Ok(record)
    }

    /// Removes every follower row matching both the form's community id and
    /// federated user id, and returns how many rows were removed. A zero
    /// match is not an error.
    pub fn ignore(db: &mut Db, form: &CommunityFollowerForm) -> (r: usize)
        requires
            old(db).wf(),
        ensures
            final(db).wf(),
            final(db).followers() == followers_without(
                old(db).followers(),
                form.community_id as int,
                form.fedi_user_id@,
            ),
            r as int == count_matching_followers(
                old(db).followers(),
                form.community_id as int,
                form.fedi_user_id@,
            ),
            count_matching_followers(
                final(db).followers(),
                form.community_id as int,
                form.fedi_user_id@,
            ) == 0,
            final(db).next_follower_id() == old(db).next_follower_id(),
            final(db).communities() == old(db).communities(),
            final(db).members() == old(db).members(),
            final(db).next_community_id() == old(db).next_community_id(),
            final(db).next_member_id() == old(db).next_member_id(),
    {
        let ghost cid = form.community_id as int;
        let ghost uid = form.fedi_user_id@;
        let mut kept: Vec<CommunityFollower> = Vec::new();
        let n = db.follower_rows.len();
        let mut i: usize = 0;
        while i < n
            invariant
                *db == *old(db),
                n == db.followers().len(),
                i <= n,
                cid == form.community_id as int,
                uid == form.fedi_user_id@,
                kept@ == followers_without(db.followers().subrange(0, i as int), cid, uid),
                kept@.len() <= i,
            decreases n - i,
        {
            proof {
                assert(db.followers().subrange(0, i as int + 1) =~= db.followers().subrange(
                    0,
                    i as int,
                ).push(db.followers()[i as int]));
                lemma_followers_without_push(
                    db.followers().subrange(0, i as int),
                    db.followers()[i as int],
                    cid,
                    uid,
                );
            }
            let row_matches = db.follower_rows[i].community_id == form.community_id
                && db.follower_rows[i].fedi_user_id == form.fedi_user_id;
            if !row_matches {
                let f = clone_follower(&db.follower_rows[i]);
                kept.push(f);
            }
            i += 1;
        }
        proof {
            assert(db.followers().subrange(0, n as int) =~= db.followers());
            lemma_followers_without_props(db.followers(), cid, uid);
        }
        let r = n - kept.len();
        db.follower_rows = kept;
        proof {
            let w = db.followers();
            let orig = old(db).followers();
            lemma_count_matching_followers_zero(w, cid, uid);
            assert forall|k: int| 0 <= k < w.len() implies 0 < (#[trigger] w[k]).id
                < db.next_follower_id() by {
                assert(orig.contains(w[k]));
                let m = choose|m: int| 0 <= m < orig.len() && orig[m] == w[k];
                assert(0 < orig[m].id < old(db).next_follower_id());
            }
        }
        r
    }
}

/// Law: following a pair that has no matching rows and then ignoring the
/// same pair removes exactly the one row the follow inserted and restores
/// the table to its prior contents.
pub proof fn lemma_follow_then_ignore(rows: Seq<CommunityFollower>, f: CommunityFollower)
    requires
        count_matching_followers(rows, f.community_id as int, f.fedi_user_id@) == 0,
    ensures
        count_matching_followers(rows.push(f), f.community_id as int, f.fedi_user_id@) == 1,
        followers_without(rows.push(f), f.community_id as int, f.fedi_user_id@) == rows,
{
    let cid = f.community_id as int;
    let uid = f.fedi_user_id@;
    lemma_followers_without_props(rows, cid, uid);
    lemma_followers_without_push(rows, f, cid, uid);
}

} // verus!
