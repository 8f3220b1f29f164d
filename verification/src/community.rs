//! The community table: a named group entity with a storage-assigned id and
//! creation timestamp, and its create/read/update/delete operations.

use vstd::prelude::*;

use crate::db::Db;
use crate::db::DbError;

verus! {

/// A persisted community row. `id` is assigned by the store and unique;
/// `start_time` is the creation timestamp in seconds since the Unix epoch,
/// assigned by the store from the clock value the caller supplies.
#[derive(Debug)]
pub struct Community {
    pub id: i32,
    pub name: String,
    pub start_time: i64,
}

/// The caller-supplied payload for inserting or updating a community:
/// only the mutable field. `id` and `start_time` are storage-assigned.
#[derive(Debug, Clone)]
pub struct CommunityForm {
    pub name: String,
}

impl PartialEq for Community {
    fn eq(&self, other: &Community) -> (r: bool) {
        self.id == other.id && self.name == other.name && self.start_time == other.start_time
    }
}

impl vstd::std_specs::cmp::PartialEqSpecImpl for Community {
    open spec fn obeys_eq_spec() -> bool {
        true
    }

    open spec fn eq_spec(&self, other: &Community) -> bool {
        self.id == other.id && self.name@ == other.name@ && self.start_time == other.start_time
    }
}

/// No two rows share a surrogate id.
pub open spec fn community_ids_distinct(rows: Seq<Community>) -> bool {
    forall|i: int, j: int|
        0 <= i < j < rows.len() ==> (#[trigger] rows[i]).id != (#[trigger] rows[j]).id
}

/// Some row carries the given id.
pub open spec fn has_community(rows: Seq<Community>, id: int) -> bool {
    exists|i: int| 0 <= i < rows.len() && (#[trigger] rows[i]).id == id
}

/// The rows that survive a delete of the given id, in their original order.
pub open spec fn communities_without(rows: Seq<Community>, id: int) -> Seq<Community> {
    rows.filter(|c: Community| c.id != id)
}

/// A field-for-field copy, equal to the original row.
fn clone_community(c: &Community) -> (r: Community)
    ensures
        r == *c,
{
    Community { id: c.id, name: c.name.clone(), start_time: c.start_time }
}

proof fn lemma_communities_without_unfold(rows: Seq<Community>, id: int)
    requires
        rows.len() > 0,
    ensures
        rows.last().id != id ==> communities_without(rows, id) == communities_without(
            rows.drop_last(),
            id,
        ).push(rows.last()),
        rows.last().id == id ==> communities_without(rows, id) == communities_without(
            rows.drop_last(),
            id,
        ),
{
    reveal(Seq::filter);
}

proof fn lemma_communities_without_push(rows: Seq<Community>, c: Community, id: int)
    ensures
        c.id != id ==> communities_without(rows.push(c), id) == communities_without(
            rows,
            id,
        ).push(c),
        c.id == id ==> communities_without(rows.push(c), id) == communities_without(rows, id),
{
    assert(rows.push(c).drop_last() =~= rows);
    assert(rows.push(c).last() == c);
    lemma_communities_without_unfold(rows.push(c), id);
}

proof fn lemma_communities_without_props(rows: Seq<Community>, id: int)
    ensures
        communities_without(rows, id).len() <= rows.len(),
        community_ids_distinct(rows) && has_community(rows, id) ==> communities_without(
            rows,
            id,
        ).len() == rows.len() - 1,
        !has_community(rows, id) ==> communities_without(rows, id) == rows,
        forall|k: int|
            0 <= k < communities_without(rows, id).len() ==> (#[trigger] communities_without(
                rows,
                id,
            )[k]).id != id,
        forall|k: int|
            0 <= k < communities_without(rows, id).len() ==> rows.contains(
                #[trigger] communities_without(rows, id)[k],
            ),
        community_ids_distinct(rows) ==> community_ids_distinct(communities_without(rows, id)),
    decreases rows.len(),
{
    if rows.len() == 0 {
        reveal(Seq::filter);
        assert(communities_without(rows, id) =~= rows);
    } else {
        let s = rows.drop_last();
        let x = rows.last();
        let w = communities_without(rows, id);
        let ws = communities_without(s, id);
        lemma_communities_without_props(s, id);
        lemma_communities_without_unfold(rows, id);
        assert(community_ids_distinct(rows) ==> community_ids_distinct(s)) by {
            if community_ids_distinct(rows) {
                assert forall|i: int, j: int| 0 <= i < j < s.len() implies (#[trigger] s[i]).id != (
                #[trigger] s[j]).id by {
                    assert(s[i] == rows[i] && s[j] == rows[j]);
                }
            }
        }
        assert forall|k: int| 0 <= k < ws.len() implies rows.contains(ws[k]) by {
            assert(s.contains(ws[k]));
            let m = choose|m: int| 0 <= m < s.len() && s[m] == ws[k];
            assert(rows[m] == ws[k]);
        }
        if x.id == id {
            assert(has_community(rows, id)) by {
                assert(rows[rows.len() - 1].id == id);
            }
            if community_ids_distinct(rows) {
                assert(!has_community(s, id)) by {
                    if has_community(s, id) {
                        let i = choose|i: int| 0 <= i < s.len() && s[i].id == id;
                        assert(rows[i].id == rows[rows.len() - 1].id);
                        assert(false);
                    }
                }
                assert(ws == s);
            }
        } else {
            assert(w == ws.push(x));
            assert(has_community(rows, id) ==> has_community(s, id)) by {
                if has_community(rows, id) {
                    let i = choose|i: int| 0 <= i < rows.len() && rows[i].id == id;
                    assert(i < rows.len() - 1);
                    assert(s[i].id == id);
                }
            }
            assert(!has_community(rows, id) ==> w == rows) by {
                if !has_community(rows, id) {
                    assert(!has_community(s, id)) by {
                        if has_community(s, id) {
                            let i = choose|i: int| 0 <= i < s.len() && s[i].id == id;
                            assert(rows[i].id == id);
                        }
                    }
                    assert(ws == s);
                    assert(s.push(x) =~= rows);
                }
            }
            assert forall|k: int| 0 <= k < w.len() implies (#[trigger] w[k]).id != id by {
                if k < ws.len() {
                    assert(w[k] == ws[k]);
                } else {
                    assert(w[k] == x);
                }
            }
            if community_ids_distinct(rows) {
                assert forall|k: int| 0 <= k < ws.len() implies (#[trigger] ws[k]).id != x.id by {
                    assert(s.contains(ws[k]));
                    let m = choose|m: int| 0 <= m < s.len() && s[m] == ws[k];
                    assert(rows[m].id != rows[rows.len() - 1].id);
                }
                assert forall|i: int, j: int| 0 <= i < j < w.len() implies (#[trigger] w[i]).id != (
                #[trigger] w[j]).id by {
                    if j < ws.len() {
                        assert(w[i] == ws[i] && w[j] == ws[j]);
                    } else {
                        assert(w[i] == ws[i] && w[j] == x);
                    }
                }
            }
        }
    }
}

impl Community {
    /// Inserts a new community row. The store assigns the next free id and
    /// stamps the row with the supplied clock value; the caller's form
    /// supplies the name. On an in-memory store the insert always succeeds.
    pub fn create(db: &mut Db, form: &CommunityForm, now: i64) -> (r: Result<Community, DbError>)
        requires
            old(db).wf(),
            old(db).next_community_id() < i32::MAX as int,
        ensures
            final(db).wf(),
            r is Ok,
            (r matches Ok(c) ==> c.id as int == old(db).next_community_id() && c.id > 0 && c.name@
                == form.name@ && c.start_time == now && final(db).communities() == old(
                db,
            ).communities().push(c)),
            final(db).next_community_id() == old(db).next_community_id() + 1,
            final(db).members() == old(db).members(),
            final(db).followers() == old(db).followers(),
            final(db).next_member_id() == old(db).next_member_id(),
            final(db).next_follower_id() == old(db).next_follower_id(),
    {
        let id = db.community_next_id;
        let row = Community { id, name: form.name.clone(), start_time: now };
        let record = clone_community(&row);
        db.community_rows.push(row);
        db.community_next_id = id + 1;
        proof {
            assert forall|i: int, j: int| 0 <= i < j < db.communities().len() implies (
            #[trigger] db.communities()[i]).id != (#[trigger] db.communities()[j]).id by {
                if j == db.communities().len() - 1 {
                    assert(db.communities()[i] == old(db).communities()[i]);
                }
            }
        }
        Ok(record)
    }

    /// Fetches the row with the given primary key. Returns the row exactly
    /// as stored when the id exists, and `NotFound` when it does not.
    pub fn read(db: &Db, community_id: i32) -> (r: Result<Community, DbError>)
        requires
            db.wf(),
        ensures
            r is Ok <==> has_community(db.communities(), community_id as int),
            (r matches Ok(c) ==> exists|i: int|
                0 <= i < db.communities().len() && (#[trigger] db.communities()[i]) == c && c.id
                    == community_id),
            (r matches Err(e) ==> e == DbError::NotFound),
    {
        let n = db.community_rows.len();
        let mut i: usize = 0;
        while i < n
            invariant
                n == db.communities().len(),
                i <= n,
                forall|j: int| 0 <= j < i ==> (#[trigger] db.communities()[j]).id != community_id,
            decreases n - i,
        {
            if db.community_rows[i].id == community_id {
                let c = clone_community(&db.community_rows[i]);
                return Ok(c);
            }
            i += 1;
        }
        Err(DbError::NotFound)
    }

    /// Overwrites the mutable fields of the row with the given primary key
    /// from the form, keeping the storage-assigned id and start_time, and
    /// returns the updated row. Returns `NotFound`, leaving the store
    /// unchanged, when no row matches.
    pub fn update(db: &mut Db, community_id: i32, form: &CommunityForm) -> (r: Result<
        Community,
        DbError,
    >)
        requires
            old(db).wf(),
        ensures
            final(db).wf(),
            r is Ok <==> has_community(old(db).communities(), community_id as int),
            (r matches Ok(c) ==> exists|i: int|
                0 <= i < old(db).communities().len() && (#[trigger] old(db).communities()[i]).id
                    == community_id && c.id == community_id && c.name@ == form.name@ && c.start_time
                    == old(db).communities()[i].start_time && final(db).communities() == old(
                    db,
                ).communities().update(i, c)),
            (r matches Err(e) ==> e == DbError::NotFound && final(db).communities() == old(
                db,
            ).communities()),
            final(db).next_community_id() == old(db).next_community_id(),
            final(db).members() == old(db).members(),
            final(db).followers() == old(db).followers(),
            final(db).next_member_id() == old(db).next_member_id(),
            final(db).next_follower_id() == old(db).next_follower_id(),
    {
        let n = db.community_rows.len();
        let mut i: usize = 0;
        while i < n
            invariant
                *db == *old(db),
                old(db).wf(),
                n == db.communities().len(),
                i <= n,
                forall|j: int| 0 <= j < i ==> (#[trigger] db.communities()[j]).id != community_id,
            decreases n - i,
        {
            if db.community_rows[i].id == community_id {
                let start_time = db.community_rows[i].start_time;
                let row = Community { id: community_id, name: form.name.clone(), start_time };
                let record = clone_community(&row);
                db.community_rows.set(i, row);
                proof {
                    assert forall|a: int, b: int|
                        0 <= a < b < db.communities().len() implies (
                    #[trigger] db.communities()[a]).id != (#[trigger] db.communities()[b]).id by {
                        assert(db.communities()[a].id == old(db).communities()[a].id);
                        assert(db.communities()[b].id == old(db).communities()[b].id);
                    }
                    assert forall|k: int| 0 <= k < db.communities().len() implies 0 < (
                    #[trigger] db.communities()[k]).id < db.next_community_id() by {
                        assert(db.communities()[k].id == old(db).communities()[k].id);
                    }
                }
                return Ok(record);
            }
            i += 1;
        }
        Err(DbError::NotFound)
    }

    /// Removes the row with the given primary key, if any, and returns how
    /// many rows were removed: 1 when the id existed, otherwise 0. A zero
    /// match is not an error.
    pub fn delete(db: &mut Db, community_id: i32) -> (r: usize)
        requires
            old(db).wf(),
        ensures
            final(db).wf(),
            final(db).communities() == communities_without(
                old(db).communities(),
                community_id as int,
            ),
            r as int == old(db).communities().len() - final(db).communities().len(),
            r == 1 <==> has_community(old(db).communities(), community_id as int),
            r <= 1,
            !has_community(final(db).communities(), community_id as int),
            final(db).next_community_id() == old(db).next_community_id(),
            final(db).members() == old(db).members(),
            final(db).followers() == old(db).followers(),
            final(db).next_member_id() == old(db).next_member_id(),
            final(db).next_follower_id() == old(db).next_follower_id(),
    {
        let mut kept: Vec<Community> = Vec::new();
        let n = db.community_rows.len();
        let mut i: usize = 0;
        while i < n
            invariant
                *db == *old(db),
                n == db.communities().len(),
                i <= n,
                kept@ == communities_without(
                    db.communities().subrange(0, i as int),
                    community_id as int,
                ),
                kept@.len() <= i,
            decreases n - i,
        {
            proof {
                assert(db.communities().subrange(0, i as int + 1) =~= db.communities().subrange(
                    0,
                    i as int,
                ).push(db.communities()[i as int]));
                lemma_communities_without_push(
                    db.communities().subrange(0, i as int),
                    db.communities()[i as int],
                    community_id as int,
                );
            }
            if db.community_rows[i].id != community_id {
                let c = clone_community(&db.community_rows[i]);
                kept.push(c);
            }
            i += 1;
        }
        proof {
            assert(db.communities().subrange(0, n as int) =~= db.communities());
            lemma_communities_without_props(db.communities(), community_id as int);
        }
        let r = n - kept.len();
        db.community_rows = kept;
        proof {
            let w = db.communities();
            let orig = old(db).communities();
            assert(!has_community(w, community_id as int)) by {
                if has_community(w, community_id as int) {
                    let k = choose|k: int| 0 <= k < w.len() && w[k].id == community_id;
                    assert(w[k].id != community_id);
                }
            }
            assert forall|k: int| 0 <= k < w.len() implies 0 < (#[trigger] w[k]).id
                < db.next_community_id() by {
                assert(orig.contains(w[k]));
                let m = choose|m: int| 0 <= m < orig.len() && orig[m] == w[k];
                assert(0 < orig[m].id < old(db).next_community_id());
            }
        }
        r
    }
}

/// Law: a community created with a fresh id is yielded back intact by a
/// subsequent read of that id — the inserted row is the one returned, and
/// its storage-assigned id and start_time are stable across the read.
pub proof fn lemma_create_then_read(rows: Seq<Community>, c: Community)
    requires
        community_ids_distinct(rows),
        !has_community(rows, c.id as int),
    ensures
        community_ids_distinct(rows.push(c)),
        has_community(rows.push(c), c.id as int),
        forall|i: int|
            0 <= i < rows.push(c).len() && (#[trigger] rows.push(c)[i]).id == c.id ==> rows.push(
                c,
            )[i] == c,
{
    let rs = rows.push(c);
    assert(rs[rows.len() as int] == c);
    assert forall|i: int, j: int| 0 <= i < j < rs.len() implies (#[trigger] rs[i]).id != (
    #[trigger] rs[j]).id by {
        if j == rs.len() - 1 {
            assert(rs[i] == rows[i]);
            if rs[i].id == c.id {
                assert(has_community(rows, c.id as int));
            }
        } else {
            assert(rs[i] == rows[i] && rs[j] == rows[j]);
        }
    }
    assert forall|i: int| 0 <= i < rs.len() && (#[trigger] rs[i]).id == c.id implies rs[i] == c by {
        if i < rows.len() {
            assert(rs[i] == rows[i]);
            if rs[i].id == c.id {
                assert(has_community(rows, c.id as int));
            }
        }
    }
}

/// Law: updating the row with a given id rewrites only that row, keeping its
/// id and start_time; a subsequent read of the id returns exactly the
/// updated record.
pub proof fn lemma_update_then_read(rows: Seq<Community>, i: int, c: Community)
    requires
        community_ids_distinct(rows),
        0 <= i < rows.len(),
        c.id == rows[i].id,
    ensures
        community_ids_distinct(rows.update(i, c)),
        has_community(rows.update(i, c), c.id as int),
        forall|j: int|
            0 <= j < rows.update(i, c).len() && (#[trigger] rows.update(i, c)[j]).id == c.id
                ==> rows.update(i, c)[j] == c,
{
    let rs = rows.update(i, c);
    assert(rs[i] == c);
    assert forall|a: int, b: int| 0 <= a < b < rs.len() implies (#[trigger] rs[a]).id != (
    #[trigger] rs[b]).id by {
        assert(rs[a].id == rows[a].id && rs[b].id == rows[b].id);
    }
    assert forall|j: int| 0 <= j < rs.len() && (#[trigger] rs[j]).id == c.id implies rs[j] == c by {
        if j != i {
            assert(rs[j] == rows[j]);
            assert(rows[j].id != rows[i].id);
        }
    }
}

/// Law: deleting an existing id removes exactly one row and a subsequent
/// read of that id fails; deleting an absent id removes nothing.
pub proof fn lemma_delete_then_read(rows: Seq<Community>, id: int)
    requires
        community_ids_distinct(rows),
    ensures
        has_community(rows, id) ==> communities_without(rows, id).len() == rows.len() - 1,
        !has_community(rows, id) ==> communities_without(rows, id) == rows,
        !has_community(communities_without(rows, id), id),
        community_ids_distinct(communities_without(rows, id)),
{
    lemma_communities_without_props(rows, id);
    let w = communities_without(rows, id);
    assert(!has_community(w, id)) by {
        if has_community(w, id) {
            let k = choose|k: int| 0 <= k < w.len() && w[k].id == id;
            assert(w[k].id != id);
        }
    }
}

} // verus!
