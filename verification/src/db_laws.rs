//! Properties of the session store that span its operations.

use vstd::prelude::*;
use crate::db::{
    DbView, MessageFilter, MessageView, SessionFilter, SessionView, insert_newest_first,
    insert_oldest_first, lemma_filter_keeps, lemma_filter_increasing, lemma_newest_index,
    lemma_session_pos, lemma_wf_after_filter, message_pred, newest_first, newest_index,
    not_found_by_id, not_found_by_name, no_sessions, oldest_first, restored, session_pred, stamp,
};
use crate::error::{status_for, STATUS_NOT_FOUND};

verus! {

// ---------------------------------------------------------------------------
// Facts about the orderings
// ---------------------------------------------------------------------------

proof fn lemma_insert_newest_members(r: Seq<SessionView>, x: SessionView)
    ensures
        insert_newest_first(r, x).len() == r.len() + 1,
        forall|y: SessionView| #[trigger] insert_newest_first(r, x).contains(y) <==> (r.contains(y) || y == x),
    decreases r.len(),
{
    if r.len() == 0 {
        assert(insert_newest_first(r, x) =~= seq![x]);
        assert forall|y: SessionView| #[trigger] insert_newest_first(r, x).contains(y) <==> (r.contains(y) || y == x) by {
            if insert_newest_first(r, x).contains(y) {
                assert(seq![x][0] == x);
            }
            if y == x {
                assert(seq![x][0] == x);
            }
        }
    } else if r[0].created_at < x.created_at {
        let res = seq![x] + r;
        assert forall|y: SessionView| #[trigger] res.contains(y) <==> (r.contains(y) || y == x) by {
            if res.contains(y) {
                let k = choose|k: int| 0 <= k < res.len() && res[k] == y;
                if k > 0 {
                    assert(r[k - 1] == y);
                }
            }
            if r.contains(y) {
                let k = choose|k: int| 0 <= k < r.len() && r[k] == y;
                assert(res[k + 1] == y);
            }
            if y == x {
                assert(res[0] == y);
            }
        }
    } else {
        let d = r.drop_first();
        lemma_insert_newest_members(d, x);
        let rest = insert_newest_first(d, x);
        let res = seq![r[0]] + rest;
        assert(insert_newest_first(r, x) == res);
        assert forall|y: SessionView| #[trigger] res.contains(y) <==> (r.contains(y) || y == x) by {
            if res.contains(y) {
                let k = choose|k: int| 0 <= k < res.len() && res[k] == y;
                if k > 0 {
                    assert(rest[k - 1] == y);
                    assert(rest.contains(y));
                    if d.contains(y) {
                        let j = choose|j: int| 0 <= j < d.len() && d[j] == y;
                        assert(r[j + 1] == y);
                    }
                } else {
                    assert(r[0] == y);
                }
            }
            if r.contains(y) {
                let k = choose|k: int| 0 <= k < r.len() && r[k] == y;
                if k == 0 {
                    assert(res[0] == y);
                } else {
                    assert(d[k - 1] == y);
                    assert(rest.contains(y));
                    let j = choose|j: int| 0 <= j < rest.len() && rest[j] == y;
                    assert(res[j + 1] == y);
                }
            }
            if y == x {
                assert(rest.contains(y));
                let j = choose|j: int| 0 <= j < rest.len() && rest[j] == y;
                assert(res[j + 1] == y);
            }
        }
    }
}

/// Sessions sorted newest first by creation time.
pub open spec fn sorted_newest_first(s: Seq<SessionView>) -> bool {
    forall|i: int, j: int|
        #![trigger s[i], s[j]]
        0 <= i < j < s.len() ==> s[i].created_at >= s[j].created_at
}

proof fn lemma_insert_newest_sorted(r: Seq<SessionView>, x: SessionView)
    requires
        sorted_newest_first(r),
    ensures
        sorted_newest_first(insert_newest_first(r, x)),
    decreases r.len(),
{
    if r.len() == 0 {
        assert(insert_newest_first(r, x) =~= seq![x]);
    } else if r[0].created_at < x.created_at {
        let res = seq![x] + r;
        assert forall|i: int, j: int| #![trigger res[i], res[j]] 0 <= i < j < res.len() implies res[i].created_at >= res[j].created_at by {
            if i == 0 {
                assert(r[0].created_at >= r[j - 1].created_at || j - 1 == 0);
            } else {
                assert(res[i] == r[i - 1] && res[j] == r[j - 1]);
            }
        }
    } else {
        let d = r.drop_first();
        assert forall|i: int, j: int| #![trigger d[i], d[j]] 0 <= i < j < d.len() implies d[i].created_at >= d[j].created_at by {
            assert(d[i] == r[i + 1] && d[j] == r[j + 1]);
        }
        lemma_insert_newest_sorted(d, x);
        lemma_insert_newest_members(d, x);
        let rest = insert_newest_first(d, x);
        let res = seq![r[0]] + rest;
        assert(insert_newest_first(r, x) == res);
        assert forall|i: int, j: int| #![trigger res[i], res[j]] 0 <= i < j < res.len() implies res[i].created_at >= res[j].created_at by {
            if i == 0 {
                let y = res[j];
                assert(rest[j - 1] == y);
                assert(rest.contains(y));
                if y != x {
                    assert(d.contains(y));
                    let k = choose|k: int| 0 <= k < d.len() && d[k] == y;
                    assert(r[k + 1] == y);
                    assert(r[0].created_at >= r[k + 1].created_at);
                }
            } else {
                assert(res[i] == rest[i - 1] && res[j] == rest[j - 1]);
            }
        }
    }
}

/// Newest-first ordering is sorted by creation time, holds the same sessions
/// and has the same length.
pub proof fn lemma_newest_first(s: Seq<SessionView>)
    ensures
        sorted_newest_first(newest_first(s)),
        newest_first(s).len() == s.len(),
        forall|y: SessionView| #[trigger] newest_first(s).contains(y) <==> s.contains(y),
    decreases s.len(),
{
    if s.len() > 0 {
        let d = s.drop_last();
        lemma_newest_first(d);
        lemma_insert_newest_sorted(newest_first(d), s.last());
        lemma_insert_newest_members(newest_first(d), s.last());
        assert forall|y: SessionView| #[trigger] newest_first(s).contains(y) <==> s.contains(y) by {
            if d.contains(y) {
                let k = choose|k: int| 0 <= k < d.len() && d[k] == y;
                assert(s[k] == y);
            }
            if s.contains(y) {
                let k = choose|k: int| 0 <= k < s.len() && s[k] == y;
                if k < s.len() - 1 {
                    assert(d[k] == y);
                }
            }
        }
    }
}

proof fn lemma_insert_oldest_members(r: Seq<MessageView>, x: MessageView)
    ensures
        insert_oldest_first(r, x).len() == r.len() + 1,
        forall|y: MessageView| #[trigger] insert_oldest_first(r, x).contains(y) <==> (r.contains(y) || y == x),
    decreases r.len(),
{
    if r.len() == 0 {
        assert(insert_oldest_first(r, x) =~= seq![x]);
        assert forall|y: MessageView| #[trigger] insert_oldest_first(r, x).contains(y) <==> (r.contains(y) || y == x) by {
            if insert_oldest_first(r, x).contains(y) {
                assert(seq![x][0] == x);
            }
            if y == x {
                assert(seq![x][0] == x);
            }
        }
    } else if r[0].created_at > x.created_at {
        let res = seq![x] + r;
        assert forall|y: MessageView| #[trigger] res.contains(y) <==> (r.contains(y) || y == x) by {
            if res.contains(y) {
                let k = choose|k: int| 0 <= k < res.len() && res[k] == y;
                if k > 0 {
                    assert(r[k - 1] == y);
                }
            }
            if r.contains(y) {
                let k = choose|k: int| 0 <= k < r.len() && r[k] == y;
                assert(res[k + 1] == y);
            }
            if y == x {
                assert(res[0] == y);
            }
        }
    } else {
        let d = r.drop_first();
        lemma_insert_oldest_members(d, x);
        let rest = insert_oldest_first(d, x);
        let res = seq![r[0]] + rest;
        assert(insert_oldest_first(r, x) == res);
        assert forall|y: MessageView| #[trigger] res.contains(y) <==> (r.contains(y) || y == x) by {
            if res.contains(y) {
                let k = choose|k: int| 0 <= k < res.len() && res[k] == y;
                if k > 0 {
                    assert(rest[k - 1] == y);
                    assert(rest.contains(y));
                    if d.contains(y) {
                        let j = choose|j: int| 0 <= j < d.len() && d[j] == y;
                        assert(r[j + 1] == y);
                    }
                } else {
                    assert(r[0] == y);
                }
            }
            if r.contains(y) {
                let k = choose|k: int| 0 <= k < r.len() && r[k] == y;
                if k == 0 {
                    assert(res[0] == y);
                } else {
                    assert(d[k - 1] == y);
                    assert(rest.contains(y));
                    let j = choose|j: int| 0 <= j < rest.len() && rest[j] == y;
                    assert(res[j + 1] == y);
                }
            }
            if y == x {
                assert(rest.contains(y));
                let j = choose|j: int| 0 <= j < rest.len() && rest[j] == y;
                assert(res[j + 1] == y);
            }
        }
    }
}

/// Messages sorted oldest first by creation time.
pub open spec fn sorted_oldest_first(s: Seq<MessageView>) -> bool {
    forall|i: int, j: int|
        #![trigger s[i], s[j]]
        0 <= i < j < s.len() ==> s[i].created_at <= s[j].created_at
}

proof fn lemma_insert_oldest_sorted(r: Seq<MessageView>, x: MessageView)
    requires
        sorted_oldest_first(r),
    ensures
        sorted_oldest_first(insert_oldest_first(r, x)),
    decreases r.len(),
{
    if r.len() == 0 {
        assert(insert_oldest_first(r, x) =~= seq![x]);
    } else if r[0].created_at > x.created_at {
        let res = seq![x] + r;
        assert forall|i: int, j: int| #![trigger res[i], res[j]] 0 <= i < j < res.len() implies res[i].created_at <= res[j].created_at by {
            if i == 0 {
                assert(r[0].created_at <= r[j - 1].created_at || j - 1 == 0);
            } else {
                assert(res[i] == r[i - 1] && res[j] == r[j - 1]);
            }
        }
    } else {
        let d = r.drop_first();
        assert forall|i: int, j: int| #![trigger d[i], d[j]] 0 <= i < j < d.len() implies d[i].created_at <= d[j].created_at by {
            assert(d[i] == r[i + 1] && d[j] == r[j + 1]);
        }
        lemma_insert_oldest_sorted(d, x);
        lemma_insert_oldest_members(d, x);
        let rest = insert_oldest_first(d, x);
        let res = seq![r[0]] + rest;
        assert(insert_oldest_first(r, x) == res);
        assert forall|i: int, j: int| #![trigger res[i], res[j]] 0 <= i < j < res.len() implies res[i].created_at <= res[j].created_at by {
            if i == 0 {
                let y = res[j];
                assert(rest[j - 1] == y);
                assert(rest.contains(y));
                if y != x {
                    assert(d.contains(y));
                    let k = choose|k: int| 0 <= k < d.len() && d[k] == y;
                    assert(r[k + 1] == y);
                    assert(r[0].created_at <= r[k + 1].created_at);
                }
            } else {
                assert(res[i] == rest[i - 1] && res[j] == rest[j - 1]);
            }
        }
    }
}

/// Oldest-first ordering is sorted by creation time, holds the same messages
/// and has the same length.
pub proof fn lemma_oldest_first(s: Seq<MessageView>)
    ensures
        sorted_oldest_first(oldest_first(s)),
        oldest_first(s).len() == s.len(),
        forall|y: MessageView| #[trigger] oldest_first(s).contains(y) <==> s.contains(y),
    decreases s.len(),
{
    if s.len() > 0 {
        let d = s.drop_last();
        lemma_oldest_first(d);
        lemma_insert_oldest_sorted(oldest_first(d), s.last());
        lemma_insert_oldest_members(oldest_first(d), s.last());
        assert forall|y: MessageView| #[trigger] oldest_first(s).contains(y) <==> s.contains(y) by {
            if d.contains(y) {
                let k = choose|k: int| 0 <= k < d.len() && d[k] == y;
                assert(s[k] == y);
            }
            if s.contains(y) {
                let k = choose|k: int| 0 <= k < s.len() && s[k] == y;
                if k < s.len() - 1 {
                    assert(d[k] == y);
                }
            }
        }
    }
}


// ---------------------------------------------------------------------------
// Facts used by the laws
// ---------------------------------------------------------------------------

/// A position whose session is newest and is followed only by strictly older
/// sessions is the position `newest_index` names.
proof fn lemma_newest_index_unique(s: Seq<SessionView>, by_update: bool, p: int)
    requires
        0 <= p < s.len(),
        forall|k: int| 0 <= k < s.len() ==> stamp(#[trigger] s[k], by_update) <= stamp(s[p], by_update),
        forall|k: int| p < k < s.len() ==> stamp(#[trigger] s[k], by_update) < stamp(s[p], by_update),
    ensures
        newest_index(s, by_update) == p,
{
    lemma_newest_index(s, by_update);
    let q = newest_index(s, by_update);
    if q < p {
        assert(stamp(s[p], by_update) < stamp(s[q], by_update));
    } else if q > p {
        assert(stamp(s[q], by_update) < stamp(s[p], by_update));
    }
}

/// A selection of a well-formed store's sessions keeps ids increasing and
/// holds only stored sessions the predicate accepts.
proof fn lemma_session_ids_filter(db: DbView, pred: spec_fn(SessionView) -> bool)
    requires
        db.wf(),
    ensures
        forall|i: int, j: int|
            #![trigger db.sessions.filter(pred)[i], db.sessions.filter(pred)[j]]
            0 <= i < j < db.sessions.filter(pred).len() ==> db.sessions.filter(pred)[i].id
                < db.sessions.filter(pred)[j].id,
        forall|k: int|
            0 <= k < db.sessions.filter(pred).len() ==> db.sessions.contains(
                #[trigger] db.sessions.filter(pred)[k],
            ) && pred(db.sessions.filter(pred)[k]),
{
    let key = |s: SessionView| s.id;
    assert forall|i: int, j: int| #![trigger db.sessions[i], db.sessions[j]] 0 <= i < j < db.sessions.len() implies key(db.sessions[i]) < key(db.sessions[j]) by {}
    lemma_filter_increasing(db.sessions, pred, key);
    let f = db.sessions.filter(pred);
    assert forall|i: int, j: int| #![trigger f[i], f[j]] 0 <= i < j < f.len() implies f[i].id < f[j].id by {
        assert(key(f[i]) < key(f[j]));
    }
}

/// Looking up an id finds the stored session with that id.
proof fn lemma_lookup(db: DbView, id: int)
    requires
        db.wf(),
    ensures
        db.get_session_by_id(id) matches Ok(s) ==> s.id == id && db.sessions.contains(s),
        db.get_session_by_id(id) is Err <==> !db.has_session(id),
{
    if db.has_session(id) {
        let w = choose|w: int| 0 <= w < db.sessions.len() && #[trigger] db.sessions[w].id == id;
        lemma_session_pos(db, id, w);
    }
}

/// Two well-formed stores that hold the same session with id `id` answer a
/// lookup of `id` the same way.
proof fn lemma_same_lookup(a: DbView, b: DbView, id: int)
    requires
        a.wf(),
        b.wf(),
        forall|s: SessionView| s.id == id ==> (a.sessions.contains(s) <==> b.sessions.contains(s)),
    ensures
        a.get_session_by_id(id) == b.get_session_by_id(id),
{
    if a.has_session(id) {
        let w = choose|w: int| 0 <= w < a.sessions.len() && #[trigger] a.sessions[w].id == id;
        lemma_session_pos(a, id, w);
        assert(b.sessions.contains(a.sessions[w]));
        let v = choose|v: int| 0 <= v < b.sessions.len() && b.sessions[v] == a.sessions[w];
        lemma_session_pos(b, id, v);
    } else if b.has_session(id) {
        let v = choose|v: int| 0 <= v < b.sessions.len() && #[trigger] b.sessions[v].id == id;
        assert(a.sessions.contains(b.sessions[v]));
        let w = choose|w: int| 0 <= w < a.sessions.len() && a.sessions[w] == b.sessions[v];
        assert(a.sessions[w].id == id);
    }
}

// ---------------------------------------------------------------------------
// Laws
// ---------------------------------------------------------------------------

/// A session that was just created is found by its id with the name and
/// display name it was created with, a positive id and no role or model, and
/// every other session is found exactly as before.
pub proof fn law_created_session_is_found(
    db: DbView,
    name: Seq<char>,
    display_name: Option<Seq<char>>,
    now: int,
)
    requires
        db.wf(),
        db.create_session(name, display_name, now).1 is Ok,
    ensures
        ({
            let (after, r) = db.create_session(name, display_name, now);
            let s = r->Ok_0;
            &&& s.id > 0
            &&& s.name == name
            &&& s.display_name == display_name
            &&& s.role is None
            &&& s.model is None
            &&& after.get_session_by_id(s.id) == Ok::<SessionView, crate::error::ClaiErrorView>(s)
            &&& forall|id: int| id != s.id ==> after.get_session_by_id(id) == db.get_session_by_id(id)
        }),
{
    let (after, r) = db.create_session(name, display_name, now);
    let s = r->Ok_0;
    assert(after.sessions == db.sessions.push(s));
    assert forall|i: int, j: int|
        #![trigger after.sessions[i], after.sessions[j]]
        0 <= i < j < after.sessions.len() implies after.sessions[i].id < after.sessions[j].id by {
        assert(after.sessions[i] == db.sessions[i]);
        if j < db.sessions.len() {
            assert(after.sessions[j] == db.sessions[j]);
        } else {
            assert(db.sessions[i].id < db.next_session_id);
        }
    }
    assert forall|i: int|
        0 <= i < after.sessions.len() implies 1 <= #[trigger] after.sessions[i].id
        < after.next_session_id by {
        if i < db.sessions.len() {
            assert(after.sessions[i] == db.sessions[i]);
            assert(1 <= db.sessions[i].id < db.next_session_id);
        }
    }
    assert forall|i: int|
        0 <= i < after.messages.len() implies after.has_session(
        #[trigger] after.messages[i].session_id,
    ) by {
        let sid = after.messages[i].session_id;
        assert(db.messages[i].session_id == sid);
        assert(db.has_session(sid));
        let w = choose|w: int| 0 <= w < db.sessions.len() && #[trigger] db.sessions[w].id == sid;
        assert(after.sessions[w] == db.sessions[w]);
    }
    assert(after.wf());
    lemma_session_pos(after, s.id, db.sessions.len() as int);
    assert forall|id: int| id != s.id implies after.get_session_by_id(id) == db.get_session_by_id(id) by {
        assert forall|t: SessionView| t.id == id implies (db.sessions.contains(t)
            <==> after.sessions.contains(t)) by {
            if db.sessions.contains(t) {
                let k = choose|k: int| 0 <= k < db.sessions.len() && db.sessions[k] == t;
                assert(after.sessions[k] == t);
            }
            if after.sessions.contains(t) {
                let k = choose|k: int| 0 <= k < after.sessions.len() && after.sessions[k] == t;
                assert(k < db.sessions.len());
                assert(db.sessions[k] == t);
            }
        }
        lemma_same_lookup(db, after, id);
    }
}

/// Looking a session up by id gives the stored session with that id, and
/// fails with the not-found error exactly when no stored session has it.
pub proof fn law_lookup_by_id(db: DbView, id: int)
    requires
        db.wf(),
    ensures
        db.get_session_by_id(id) matches Ok(s) ==> s.id == id && db.sessions.contains(s),
        !db.has_session(id) ==> db.get_session_by_id(id) == Err::<SessionView, crate::error::ClaiErrorView>(not_found_by_id(id)),
        db.has_session(id) ==> db.get_session_by_id(id) is Ok,
{
    lemma_lookup(db, id);
}

/// Replacing a stored session by one with the same id keeps the store well
/// formed; the session is then found as replaced, and every other session is
/// found as before.
proof fn lemma_update_reads_back(db: DbView, id: int, upd: SessionView)
    requires
        db.wf(),
        db.has_session(id),
        upd.id == id,
    ensures
        db.update_session(id, upd).1 == Ok::<SessionView, crate::error::ClaiErrorView>(upd),
        db.update_session(id, upd).0.wf(),
        db.update_session(id, upd).0.get_session_by_id(id) == Ok::<
            SessionView,
            crate::error::ClaiErrorView,
        >(upd),
        forall|other: int| other != id ==> db.update_session(id, upd).0.get_session_by_id(other)
            == db.get_session_by_id(other),
{
    let p = db.session_pos(id);
    let (after, r) = db.update_session(id, upd);
    let w = choose|w: int| 0 <= w < db.sessions.len() && #[trigger] db.sessions[w].id == id;
    lemma_session_pos(db, id, w);
    assert(after.sessions == db.sessions.update(p, upd));
    assert forall|i: int| 0 <= i < after.sessions.len() implies #[trigger] after.sessions[i].id
        == db.sessions[i].id by {}
    assert forall|i: int, j: int|
        #![trigger after.sessions[i], after.sessions[j]]
        0 <= i < j < after.sessions.len() implies after.sessions[i].id < after.sessions[j].id by {
        assert(db.sessions[i].id < db.sessions[j].id);
    }
    assert forall|i: int|
        0 <= i < after.messages.len() implies after.has_session(
        #[trigger] after.messages[i].session_id,
    ) by {
        let sid = after.messages[i].session_id;
        assert(db.messages[i].session_id == sid);
        assert(db.has_session(sid));
        let k = choose|k: int| 0 <= k < db.sessions.len() && #[trigger] db.sessions[k].id == sid;
        assert(after.sessions[k].id == sid);
    }
    assert(after.wf());
    lemma_session_pos(after, id, p);
    assert forall|other: int| other != id implies after.get_session_by_id(other)
        == db.get_session_by_id(other) by {
        assert forall|t: SessionView| t.id == other implies (db.sessions.contains(t)
            <==> after.sessions.contains(t)) by {
            if db.sessions.contains(t) {
                let k = choose|k: int| 0 <= k < db.sessions.len() && db.sessions[k] == t;
                assert(k != p);
                assert(after.sessions[k] == t);
            }
            if after.sessions.contains(t) {
                let k = choose|k: int| 0 <= k < after.sessions.len() && after.sessions[k] == t;
                assert(k != p);
                assert(db.sessions[k] == t);
            }
        }
        lemma_same_lookup(db, after, other);
    }
}

/// Updating a session's display name changes that field alone: the session
/// is then found with the new display name and everything else as it was,
/// and every other session is found as before.
pub proof fn law_update_display_name(db: DbView, id: int, display_name: Seq<char>)
    requires
        db.wf(),
        db.has_session(id),
    ensures
        ({
            let (after, r) = db.update_display_name(id, display_name);
            let old_s = db.get_session_by_id(id)->Ok_0;
            &&& r == Ok::<SessionView, crate::error::ClaiErrorView>(SessionView { display_name: Some(display_name), ..old_s })
            &&& after.get_session_by_id(id) == r
            &&& forall|other: int| other != id ==> after.get_session_by_id(other)
                == db.get_session_by_id(other)
        }),
{
    let w = choose|w: int| 0 <= w < db.sessions.len() && #[trigger] db.sessions[w].id == id;
    lemma_session_pos(db, id, w);
    let upd = SessionView { display_name: Some(display_name), ..db.sessions[db.session_pos(id)] };
    lemma_update_reads_back(db, id, upd);
}

/// Setting or clearing a session's role changes that field alone: the session
/// is then found with the new role and everything else as it was, and every
/// other session is found as before.
pub proof fn law_update_role(db: DbView, id: int, role: Option<Seq<char>>)
    requires
        db.wf(),
        db.has_session(id),
    ensures
        ({
            let (after, r) = db.update_role(id, role);
            let old_s = db.get_session_by_id(id)->Ok_0;
            &&& r == Ok::<SessionView, crate::error::ClaiErrorView>(SessionView { role, ..old_s })
            &&& after.get_session_by_id(id) == r
            &&& forall|other: int| other != id ==> after.get_session_by_id(other)
                == db.get_session_by_id(other)
        }),
{
    let w = choose|w: int| 0 <= w < db.sessions.len() && #[trigger] db.sessions[w].id == id;
    lemma_session_pos(db, id, w);
    let upd = SessionView { role, ..db.sessions[db.session_pos(id)] };
    lemma_update_reads_back(db, id, upd);
}

/// Setting a session's model changes that field alone: the session is then
/// found with the new model and everything else as it was, and every other
/// session is found as before.
pub proof fn law_update_model(db: DbView, id: int, model: Seq<char>)
    requires
        db.wf(),
        db.has_session(id),
    ensures
        ({
            let (after, r) = db.update_model(id, model);
            let old_s = db.get_session_by_id(id)->Ok_0;
            &&& r == Ok::<SessionView, crate::error::ClaiErrorView>(SessionView { model: Some(model), ..old_s })
            &&& after.get_session_by_id(id) == r
            &&& forall|other: int| other != id ==> after.get_session_by_id(other)
                == db.get_session_by_id(other)
        }),
{
    let w = choose|w: int| 0 <= w < db.sessions.len() && #[trigger] db.sessions[w].id == id;
    lemma_session_pos(db, id, w);
    let upd = SessionView { model: Some(model), ..db.sessions[db.session_pos(id)] };
    lemma_update_reads_back(db, id, upd);
}

/// Touching a session's last-access time changes that field alone, and the
/// session becomes the last session whenever no session was updated later.
pub proof fn law_touch_makes_last(db: DbView, id: int, now: int)
    requires
        db.wf(),
        db.has_session(id),
        forall|i: int| 0 <= i < db.sessions.len() ==> #[trigger] db.sessions[i].updated_at < now,
    ensures
        ({
            let (after, r) = db.update_timestamp(id, now);
            let old_s = db.get_session_by_id(id)->Ok_0;
            &&& r == Ok::<SessionView, crate::error::ClaiErrorView>(SessionView { updated_at: now, ..old_s })
            &&& after.get_session_by_id(id) == r
            &&& after.get_last_session() == r
        }),
{
    let w = choose|w: int| 0 <= w < db.sessions.len() && #[trigger] db.sessions[w].id == id;
    lemma_session_pos(db, id, w);
    let p = db.session_pos(id);
    let upd = SessionView { updated_at: now, ..db.sessions[p] };
    lemma_update_reads_back(db, id, upd);
    let after = db.update_timestamp(id, now).0;
    assert(after.sessions == db.sessions.update(p, upd));
    law_last_session_is_most_recent(after);
    let l = after.get_last_session()->Ok_0;
    let k = choose|k: int| 0 <= k < after.sessions.len() && after.sessions[k] == l;
    assert(after.sessions.contains(upd)) by {
        assert(after.sessions[p] == upd);
    }
    if k != p {
        assert(after.sessions[k] == db.sessions[k]);
        assert(l.updated_at < now);
        assert(false);
    }
}

/// The last session is a stored session that no stored session was updated
/// after; there is one whenever the store holds any session.
pub proof fn law_last_session_is_most_recent(db: DbView)
    ensures
        db.get_last_session() matches Ok(s) ==> db.sessions.contains(s) && forall|t: SessionView|
            db.sessions.contains(t) ==> t.updated_at <= s.updated_at,
        db.get_last_session() is Err <==> db.sessions.len() == 0,
        db.sessions.len() == 0 ==> db.get_last_session() == Err::<SessionView, crate::error::ClaiErrorView>(no_sessions()),
{
    if db.sessions.len() > 0 {
        lemma_newest_index(db.sessions, true);
        let p = newest_index(db.sessions, true);
        assert forall|t: SessionView| db.sessions.contains(t) implies t.updated_at
            <= db.sessions[p].updated_at by {
            let k = choose|k: int| 0 <= k < db.sessions.len() && db.sessions[k] == t;
            assert(stamp(db.sessions[k], true) <= stamp(db.sessions[p], true));
        }
    }
}

/// Looking a session up by display name gives a stored session with that
/// display name that no other such session was created after, and fails with
/// the not-found error exactly when no stored session has that display name.
pub proof fn law_lookup_by_name(db: DbView, name: Seq<char>)
    requires
        db.wf(),
    ensures
        db.get_session_by_name(name) matches Ok(s) ==> {
            &&& s.display_name == Some(name)
            &&& db.sessions.contains(s)
            &&& forall|t: SessionView|
                db.sessions.contains(t) && t.display_name == Some(name) ==> t.created_at
                    <= s.created_at
        },
        db.get_session_by_name(name) is Err <==> !(exists|t: SessionView|
            db.sessions.contains(t) && t.display_name == Some(name)),
        db.get_session_by_name(name) is Err ==> db.get_session_by_name(name) == Err::<SessionView, crate::error::ClaiErrorView>(not_found_by_name(name)),
{
    let pred = session_pred(SessionFilter::DisplayName(name));
    let c = db.sessions.filter(pred);
    lemma_session_ids_filter(db, pred);
    broadcast use vstd::seq_lib::group_filter_ensures;
    if c.len() > 0 {
        lemma_newest_index(c, false);
        let p = newest_index(c, false);
        assert(pred(c[p]));
        assert(db.sessions.contains(c[p]));
        assert forall|t: SessionView| db.sessions.contains(t) && t.display_name == Some(name) implies t.created_at
            <= c[p].created_at by {
            let k = choose|k: int| 0 <= k < db.sessions.len() && db.sessions[k] == t;
            lemma_filter_keeps(db.sessions, pred, k);
            let q = choose|q: int| 0 <= q < c.len() && c[q] == t;
            assert(stamp(c[q], false) <= stamp(c[p], false));
        }
        assert(pred(c[0]) && db.sessions.contains(c[0]));
    } else {
        assert forall|t: SessionView| !(db.sessions.contains(t) && t.display_name == Some(name)) by {
            if db.sessions.contains(t) && t.display_name == Some(name) {
                let k = choose|k: int| 0 <= k < db.sessions.len() && db.sessions[k] == t;
                lemma_filter_keeps(db.sessions, pred, k);
            }
        }
    }
}

/// The named-session listing holds exactly the stored sessions that have a
/// display name, each once, newest first.
pub proof fn law_list_named_sessions(db: DbView)
    requires
        db.wf(),
    ensures
        sorted_newest_first(db.list_named_sessions()),
        forall|s: SessionView| #[trigger] db.list_named_sessions().contains(s) <==> (db.sessions.contains(s)
            && s.display_name is Some),
        db.list_named_sessions().len() == db.sessions.filter(session_pred(SessionFilter::Named)).len(),
{
    let pred = session_pred(SessionFilter::Named);
    let f = db.sessions.filter(pred);
    lemma_session_ids_filter(db, pred);
    lemma_newest_first(f);
    broadcast use vstd::seq_lib::group_filter_ensures;
    assert forall|s: SessionView| #[trigger] db.list_named_sessions().contains(s) <==> (db.sessions.contains(s)
        && s.display_name is Some) by {
        if f.contains(s) {
            let q = choose|q: int| 0 <= q < f.len() && f[q] == s;
            assert(pred(f[q]));
        }
        if db.sessions.contains(s) && s.display_name is Some {
            let k = choose|k: int| 0 <= k < db.sessions.len() && db.sessions[k] == s;
            lemma_filter_keeps(db.sessions, pred, k);
        }
    }
}


/// A selection of a well-formed store's messages holds only stored messages
/// the predicate accepts.
proof fn lemma_message_filter_members(db: DbView, pred: spec_fn(MessageView) -> bool)
    requires
        db.wf(),
    ensures
        forall|k: int|
            0 <= k < db.messages.filter(pred).len() ==> db.messages.contains(
                #[trigger] db.messages.filter(pred)[k],
            ) && pred(db.messages.filter(pred)[k]),
{
    let key = |m: MessageView| m.id;
    assert forall|i: int, j: int| #![trigger db.messages[i], db.messages[j]] 0 <= i < j < db.messages.len() implies key(db.messages[i]) < key(db.messages[j]) by {}
    lemma_filter_increasing(db.messages, pred, key);
}

/// Deleting a session by display name removes the session the name lookup
/// finds, together with all its messages; every other session is found as
/// before. A name no session has is refused with the not-found error and
/// the store is left as it was.
pub proof fn law_delete_session_by_name(db: DbView, name: Seq<char>)
    requires
        db.wf(),
    ensures
        ({
            let (after, r) = db.delete_session_by_name(name);
            match db.get_session_by_name(name) {
                Ok(s) => {
                    &&& r is Ok
                    &&& after.get_session_by_id(s.id) == Err::<SessionView, crate::error::ClaiErrorView>(not_found_by_id(s.id))
                    &&& after.session_messages(s.id).len() == 0
                    &&& forall|id: int| id != s.id ==> after.get_session_by_id(id)
                        == db.get_session_by_id(id)
                },
                Err(e) => r == Err::<(), crate::error::ClaiErrorView>(e) && after == db,
            }
        }),
{
    let (after, r) = db.delete_session_by_name(name);
    match db.get_session_by_name(name) {
        Ok(s) => {
            law_lookup_by_name(db, name);
            let id = s.id;
            let ps = session_pred(SessionFilter::OtherThan(id));
            let pm = message_pred(MessageFilter::NotOf(seq![id]));
            assert forall|i: int, k: int|
                #![trigger db.messages[i], db.sessions[k]]
                0 <= i < db.messages.len() && 0 <= k < db.sessions.len() && pm(db.messages[i])
                    && db.sessions[k].id == db.messages[i].session_id implies ps(db.sessions[k]) by {
                assert(seq![id][0] == id);
            }
            lemma_wf_after_filter(db, ps, pm);
            assert(after == db.without_session(id));
            assert(after.wf());
            lemma_session_ids_filter(db, ps);
            assert(!after.has_session(id)) by {
                if after.has_session(id) {
                    let w = choose|w: int| 0 <= w < after.sessions.len() && #[trigger] after.sessions[w].id == id;
                    assert(ps(after.sessions[w]));
                }
            }
            lemma_lookup(after, id);
            lemma_message_filter_members(db, pm);
            let of = message_pred(MessageFilter::Of(id));
            lemma_message_filter_members(after, of);
            let mine = after.messages.filter(of);
            if mine.len() > 0 {
                assert(after.messages.contains(mine[0]) && of(mine[0]));
                let k = choose|k: int| 0 <= k < after.messages.len() && after.messages[k] == mine[0];
                assert(db.messages.filter(pm).contains(after.messages[k]));
                assert(pm(after.messages[k]));
                assert(seq![id][0] == id);
            }
            lemma_oldest_first(mine);
            assert forall|other: int| other != id implies after.get_session_by_id(other)
                == db.get_session_by_id(other) by {
                assert forall|t: SessionView| t.id == other implies (db.sessions.contains(t)
                    <==> after.sessions.contains(t)) by {
                    if db.sessions.contains(t) {
                        let k = choose|k: int| 0 <= k < db.sessions.len() && db.sessions[k] == t;
                        lemma_filter_keeps(db.sessions, ps, k);
                    }
                }
                lemma_same_lookup(db, after, other);
            }
        },
        Err(e) => {},
    }
}

/// Cleanup never fails; it keeps every named session and the most recently
/// created session exactly as they were, and leaves no other session behind.
pub proof fn law_cleanup_keeps_named_and_newest(db: DbView)
    requires
        db.wf(),
    ensures
        ({
            let (after, r) = db.cleanup_old_sessions();
            &&& r is Ok
            &&& after.wf()
            &&& forall|s: SessionView|
                db.sessions.contains(s) && s.display_name is Some ==> after.sessions.contains(s)
            &&& db.sessions.len() > 0 ==> after.sessions.contains(
                db.sessions[newest_index(db.sessions, false)],
            )
            &&& forall|s: SessionView|
                after.sessions.contains(s) ==> db.sessions.contains(s) && (s.display_name is Some
                    || s == db.sessions[newest_index(db.sessions, false)])
        }),
{
    let (after, r) = db.cleanup_old_sessions();
    if db.sessions.len() > 0 {
        lemma_newest_index(db.sessions, false);
        let kp = newest_index(db.sessions, false);
        let keep = db.sessions[kp].id;
        let victims = db.cleanup_victims(keep);
        if victims.len() > 0 {
            let ps = session_pred(SessionFilter::SurvivesCleanup(keep));
            let pm = message_pred(MessageFilter::NotOf(victims));
            let rm = db.sessions.filter(session_pred(SessionFilter::RemovedByCleanup(keep)));
            assert forall|i: int, k: int|
                #![trigger db.messages[i], db.sessions[k]]
                0 <= i < db.messages.len() && 0 <= k < db.sessions.len() && pm(db.messages[i])
                    && db.sessions[k].id == db.messages[i].session_id implies ps(db.sessions[k]) by {
                if !ps(db.sessions[k]) {
                    lemma_filter_keeps(db.sessions, session_pred(SessionFilter::RemovedByCleanup(keep)), k);
                    let q = choose|q: int| 0 <= q < rm.len() && rm[q] == db.sessions[k];
                    assert(victims[q] == db.sessions[k].id);
                    assert(victims.contains(db.messages[i].session_id));
                }
            }
            lemma_wf_after_filter(db, ps, pm);
            lemma_session_ids_filter(db, ps);
            assert forall|s: SessionView| db.sessions.contains(s) && s.display_name is Some implies after.sessions.contains(s) by {
                let k = choose|k: int| 0 <= k < db.sessions.len() && db.sessions[k] == s;
                lemma_filter_keeps(db.sessions, ps, k);
            }
            lemma_filter_keeps(db.sessions, ps, kp);
            assert forall|s: SessionView| after.sessions.contains(s) implies db.sessions.contains(s) && (s.display_name is Some
                    || s == db.sessions[kp]) by {
                let q = choose|q: int| 0 <= q < after.sessions.len() && after.sessions[q] == s;
                assert(db.sessions.contains(after.sessions[q]) && ps(after.sessions[q]));
                if s.display_name is None {
                    assert(s.id == keep);
                    let k = choose|k: int| 0 <= k < db.sessions.len() && db.sessions[k] == s;
                    lemma_session_pos(db, keep, k);
                    lemma_session_pos(db, keep, kp);
                }
            }
        } else {
            assert(db.sessions.contains(db.sessions[kp]));
            assert forall|s: SessionView| db.sessions.contains(s) implies (s.display_name is Some
                    || s == db.sessions[kp]) by {
                if s.display_name is None && s != db.sessions[kp] {
                    let k = choose|k: int| 0 <= k < db.sessions.len() && db.sessions[k] == s;
                    if s.id == keep {
                        lemma_session_pos(db, keep, k);
                        lemma_session_pos(db, keep, kp);
                    }
                    lemma_filter_keeps(db.sessions, session_pred(SessionFilter::RemovedByCleanup(keep)), k);
                    assert(db.sessions.filter(
                        session_pred(SessionFilter::RemovedByCleanup(keep)),
                    ).len() > 0);
                }
            }
        }
    }
}


/// Cleaning up twice removes nothing the second time: the second cleanup
/// reports no deleted rows and leaves the store as the first one left it.
pub proof fn law_cleanup_idempotent(db: DbView)
    requires
        db.wf(),
    ensures
        ({
            let after = db.cleanup_old_sessions().0;
            after.cleanup_old_sessions() == (after, Ok::<int, crate::error::ClaiErrorView>(0))
        }),
{
    law_cleanup_keeps_named_and_newest(db);
    let after = db.cleanup_old_sessions().0;
    if after.sessions.len() > 0 {
        lemma_newest_index(db.sessions, false);
        let kp = newest_index(db.sessions, false);
        let keep = db.sessions[kp];
        // The kept session is the newest of what is left.
        let q = choose|q: int| 0 <= q < after.sessions.len() && after.sessions[q] == keep;
        assert forall|k: int| 0 <= k < after.sessions.len() implies stamp(#[trigger] after.sessions[k], false)
            <= stamp(after.sessions[q], false) by {
            assert(after.sessions.contains(after.sessions[k]));
            let w = choose|w: int| 0 <= w < db.sessions.len() && db.sessions[w] == after.sessions[k];
            assert(stamp(db.sessions[w], false) <= stamp(db.sessions[kp], false));
        }
        assert forall|k: int| q < k < after.sessions.len() implies stamp(#[trigger] after.sessions[k], false)
            < stamp(after.sessions[q], false) by {
            assert(after.sessions[q].id < after.sessions[k].id);
            assert(after.sessions.contains(after.sessions[k]));
            let w = choose|w: int| 0 <= w < db.sessions.len() && db.sessions[w] == after.sessions[k];
            if w < kp {
                assert(db.sessions[w].id < db.sessions[kp].id);
            } else if w == kp {
            } else {
                assert(stamp(db.sessions[w], false) < stamp(db.sessions[kp], false));
            }
        }
        lemma_newest_index_unique(after.sessions, false, q);
        let rpred = session_pred(SessionFilter::RemovedByCleanup(keep.id));
        lemma_session_ids_filter(after, rpred);
        let rm = after.sessions.filter(rpred);
        if rm.len() > 0 {
            assert(after.sessions.contains(rm[0]) && rpred(rm[0]));
            let w = choose|w: int| 0 <= w < after.sessions.len() && after.sessions[w] == rm[0];
            assert(after.sessions.contains(after.sessions[w]));
        }
        assert(after.cleanup_victims(keep.id).len() == 0);
    }
}

/// A message that was just created is listed among its session's messages,
/// which grow by exactly one and stay oldest first.
pub proof fn law_created_message_is_listed(
    db: DbView,
    session_id: int,
    role: Seq<char>,
    content: Seq<char>,
    now: int,
)
    requires
        db.wf(),
        db.create_message(session_id, role, content, now).1 is Ok,
    ensures
        ({
            let (after, r) = db.create_message(session_id, role, content, now);
            let m = r->Ok_0;
            &&& m.session_id == session_id && m.role == role && m.content == content
            &&& after.session_messages(session_id).contains(m)
            &&& after.session_messages(session_id).len() == db.session_messages(session_id).len()
                + 1
            &&& sorted_oldest_first(after.session_messages(session_id))
        }),
{
    let (after, r) = db.create_message(session_id, role, content, now);
    let m = r->Ok_0;
    let of = message_pred(MessageFilter::Of(session_id));
    assert(after.messages == db.messages.push(m));
    assert(after.messages.drop_last() =~= db.messages);
    reveal(Seq::filter);
    assert(after.messages.filter(of) == db.messages.filter(of).push(m));
    lemma_oldest_first(after.messages.filter(of));
    lemma_oldest_first(db.messages.filter(of));
    let f = db.messages.filter(of).push(m);
    assert(f[f.len() - 1] == m);
}

/// Every not-found error the store produces is answered with status 404.
pub proof fn law_not_found_is_404(id: int, name: Seq<char>)
    ensures
        status_for(not_found_by_id(id)) == STATUS_NOT_FOUND,
        status_for(not_found_by_name(name)) == STATUS_NOT_FOUND,
        status_for(no_sessions()) == STATUS_NOT_FOUND,
{
}

/// A snapshot of a well-formed store restores to a well-formed store with the
/// same rows in the same order, whose counters are no larger than the store's.
pub proof fn law_snapshot_restores(db: DbView)
    requires
        db.wf(),
    ensures
        restored(db.sessions, db.messages).wf(),
        restored(db.sessions, db.messages).sessions == db.sessions,
        restored(db.sessions, db.messages).messages == db.messages,
        restored(db.sessions, db.messages).next_session_id <= db.next_session_id,
        restored(db.sessions, db.messages).next_message_id <= db.next_message_id,
{
    let r = restored(db.sessions, db.messages);
    if db.sessions.len() > 0 {
        let last = db.sessions.len() - 1;
        assert(db.sessions[last].id < db.next_session_id);
        assert forall|i: int| 0 <= i < db.sessions.len() implies 1 <= #[trigger] db.sessions[i].id
            < r.next_session_id by {
            if i < last {
                assert(db.sessions[i].id < db.sessions[last].id);
            }
        }
    }
    if db.messages.len() > 0 {
        let last = db.messages.len() - 1;
        assert(db.messages[last].id < db.next_message_id);
        assert forall|i: int| 0 <= i < db.messages.len() implies 1 <= #[trigger] db.messages[i].id
            < r.next_message_id by {
            if i < last {
                assert(db.messages[i].id < db.messages[last].id);
            }
        }
    }
    assert forall|i: int| 0 <= i < r.messages.len() implies r.has_session(
        #[trigger] r.messages[i].session_id,
    ) by {
        assert(db.has_session(db.messages[i].session_id));
    }
}

proof fn lemma_insert_oldest_last(r: Seq<MessageView>, x: MessageView)
    requires
        forall|i: int| 0 <= i < r.len() ==> #[trigger] r[i].created_at <= x.created_at,
    ensures
        insert_oldest_first(r, x) == r.push(x),
    decreases r.len(),
{
    if r.len() == 0 {
        assert(seq![x] =~= r.push(x));
    } else {
        lemma_insert_oldest_last(r.drop_first(), x);
        assert(r.push(x) =~= seq![r[0]] + r.drop_first().push(x));
    }
}

/// A message stamped no earlier than every message already in its session
/// comes last: the session's messages are the old ones followed by it.
pub proof fn law_latest_message_is_appended(
    db: DbView,
    session_id: int,
    role: Seq<char>,
    content: Seq<char>,
    now: int,
)
    requires
        db.create_message(session_id, role, content, now).1 is Ok,
        forall|i: int|
            0 <= i < db.session_messages(session_id).len() ==> #[trigger] db.session_messages(
                session_id,
            )[i].created_at <= now,
    ensures
        db.create_message(session_id, role, content, now).0.session_messages(session_id)
            == db.session_messages(session_id).push(
            db.create_message(session_id, role, content, now).1->Ok_0,
        ),
{
    let (after, r) = db.create_message(session_id, role, content, now);
    let m = r->Ok_0;
    let of = message_pred(MessageFilter::Of(session_id));
    assert(after.messages.drop_last() =~= db.messages);
    reveal(Seq::filter);
    let f = db.messages.filter(of);
    assert(after.messages.filter(of) == f.push(m));
    assert(f.push(m).drop_last() =~= f);
    assert(db.session_messages(session_id) == oldest_first(f));
    assert forall|i: int| 0 <= i < oldest_first(f).len() implies #[trigger] oldest_first(f)[i].created_at
        <= m.created_at by {
        assert(db.session_messages(session_id)[i].created_at <= now);
    }
    lemma_insert_oldest_last(oldest_first(f), m);
}

} // verus!
