use vstd::prelude::*;

use crate::business_hours::{closed_at, times_on, weekday_of, BusinessWeek};
use crate::demo::{demo_quote, sanitized, ReadOnlyStorage};
use crate::storage::{
    delete_outcome, insert_outcome, update_outcome, with_comment, with_comment_removed, DeleteError,
    InsertError, Storage, UpdateError,
};
use crate::types::{
    comment_index, fresh_gate, has_comment, lemma_comment_index_unique, unique_comment_ids,
    CommentView, GateKeyView, GateState, GateView, UtcDateTime,
};

verus! {

/// A second insert under a key that the first insert created fails, and the
/// store keeps exactly the first gate under that key.
pub proof fn law_second_insert_fails(
    m0: Map<GateKeyView, GateView>,
    m1: Map<GateKeyView, GateView>,
    m2: Map<GateKeyView, GateView>,
    first: GateView,
    second: GateView,
    r1: Result<(), InsertError>,
    r2: Result<(), InsertError>,
)
    requires
        first.key == second.key,
        insert_outcome(m0, m1, first, r1),
        r1 is Ok,
        insert_outcome(m1, m2, second, r2),
    ensures
        r2 is Err,
        m2 == m1,
        m2.contains_key(first.key) && m2[first.key] == first,
{
}

/// Every write that needs an existing gate fails on an absent key and leaves the
/// store as it was.
pub proof fn law_absent_key_changes_nothing(
    m0: Map<GateKeyView, GateView>,
    m1: Map<GateKeyView, GateView>,
    k: GateKeyView,
    found: bool,
    next: GateView,
    r: Result<crate::types::Gate, UpdateError>,
    m2: Map<GateKeyView, GateView>,
    rd: Result<(), DeleteError>,
)
    requires
        !m0.contains_key(k),
        found ==> m0.contains_key(k),
        update_outcome(m0, m1, k, found, next, r),
        delete_outcome(m0, m2, k, rd),
    ensures
        r is Err && m1 == m0,
        rd is Err && m2 == m0,
{
}

/// After an insert and a delete of the same key, the key is absent.
pub proof fn law_insert_then_delete(
    m0: Map<GateKeyView, GateView>,
    m1: Map<GateKeyView, GateView>,
    m2: Map<GateKeyView, GateView>,
    g: GateView,
    r1: Result<(), InsertError>,
    r2: Result<(), DeleteError>,
)
    requires
        insert_outcome(m0, m1, g, r1),
        r1 is Ok,
        delete_outcome(m1, m2, g.key, r2),
        r2 is Ok,
    ensures
        !m2.contains_key(g.key),
        !(r2 matches Err(DeleteError::ItemToDeleteNotFound(_))),
{
}

/// Writing two comments under one id leaves one comment with that id,
/// holding the second write, and no other change to the comment list.
pub proof fn law_upsert_overwrites(g: GateView, a: CommentView, b: CommentView, t1: UtcDateTime, t2: UtcDateTime)
    requires
        unique_comment_ids(g.comments),
        a.id == b.id,
    ensures
        ({
            let cs = with_comment(with_comment(g, a, t1), b, t2).comments;
            &&& unique_comment_ids(cs)
            &&& has_comment(cs, b.id)
            &&& cs[comment_index(cs, b.id)] == b
            &&& cs.len() == if has_comment(g.comments, a.id) { g.comments.len() } else { g.comments.len() + 1 }
        }),
{
    let cs0 = g.comments;
    let cs1 = with_comment(g, a, t1).comments;
    let cs = with_comment(with_comment(g, a, t1), b, t2).comments;
    if has_comment(cs0, a.id) {
        let i = comment_index(cs0, a.id);
        lemma_comment_index_unique(cs0, i);
        assert(cs1 == cs0.update(i, a));
        assert(unique_comment_ids(cs1)) by {
            assert forall|x: int, y: int| 0 <= x < cs1.len() && 0 <= y < cs1.len() && x != y implies #[trigger] cs1[x].id != #[trigger] cs1[y].id by {
                assert(cs1[x].id == cs0[x].id);
                assert(cs1[y].id == cs0[y].id);
            }
        }
    } else {
        assert(cs1 == cs0.push(a));
        assert(unique_comment_ids(cs1)) by {
            assert forall|x: int, y: int| 0 <= x < cs1.len() && 0 <= y < cs1.len() && x != y implies #[trigger] cs1[x].id != #[trigger] cs1[y].id by {
                if x < cs0.len() && y < cs0.len() {
                } else if x < cs0.len() {
                    assert(cs1[x] == cs0[x]);
                } else {
                    assert(cs1[y] == cs0[y]);
                }
            }
        }
    }
    let j = cs1.len() - 1;
    let k = if has_comment(cs0, a.id) { comment_index(cs0, a.id) } else { j };
    assert(cs1[k].id == a.id);
    lemma_comment_index_unique(cs1, k);
    assert(cs == cs1.update(k, b));
    assert(unique_comment_ids(cs)) by {
        assert forall|x: int, y: int| 0 <= x < cs.len() && 0 <= y < cs.len() && x != y implies #[trigger] cs[x].id != #[trigger] cs[y].id by {
            assert(cs[x].id == cs1[x].id);
            assert(cs[y].id == cs1[y].id);
        }
    }
    lemma_comment_index_unique(cs, k);
}

proof fn lemma_upsert_keeps_unique(cs: Seq<CommentView>, c: CommentView)
    requires
        unique_comment_ids(cs),
    ensures
        unique_comment_ids(crate::types::upserted_comments(cs, c)),
        has_comment(crate::types::upserted_comments(cs, c), c.id),
        crate::types::upserted_comments(cs, c)[comment_index(crate::types::upserted_comments(cs, c), c.id)] == c,
        forall|i: int| 0 <= i < cs.len() && cs[i].id != c.id ==> crate::types::upserted_comments(cs, c).contains(#[trigger] cs[i]),
{
    let t = crate::types::upserted_comments(cs, c);
    let k = if has_comment(cs, c.id) {
        let i = comment_index(cs, c.id);
        lemma_comment_index_unique(cs, i);
        i
    } else {
        cs.len() as int
    };
    assert(unique_comment_ids(t)) by {
        assert forall|x: int, y: int| 0 <= x < t.len() && 0 <= y < t.len() && x != y implies #[trigger] t[x].id != #[trigger] t[y].id by {
            if x != k && y != k {
                assert(t[x] == cs[x] && t[y] == cs[y]);
            } else if x == k {
                assert(t[y] == cs[y]);
            } else {
                assert(t[x] == cs[x]);
            }
        }
    }
    assert(t[k] == c);
    lemma_comment_index_unique(t, k);
    assert forall|i: int| 0 <= i < cs.len() && cs[i].id != c.id implies t.contains(#[trigger] cs[i]) by {
        assert(t[i] == cs[i]);
    }
}

/// Writing comments under two different ids leaves both, each as written.
pub proof fn law_upserts_of_different_ids_both_remain(
    g: GateView,
    a: CommentView,
    b: CommentView,
    t1: UtcDateTime,
    t2: UtcDateTime,
)
    requires
        unique_comment_ids(g.comments),
        a.id != b.id,
    ensures
        ({
            let cs = with_comment(with_comment(g, a, t1), b, t2).comments;
            &&& cs.contains(a)
            &&& cs.contains(b)
        }),
{
    let cs1 = with_comment(g, a, t1).comments;
    lemma_upsert_keeps_unique(g.comments, a);
    let i = comment_index(cs1, a.id);
    lemma_upsert_keeps_unique(cs1, b);
    let cs = with_comment(with_comment(g, a, t1), b, t2).comments;
    assert(cs1[i] == a);
    assert(cs.contains(cs1[i]));
    let j = comment_index(cs, b.id);
    assert(cs[j] == b);
}

/// Deleting a comment id that a gate does not hold fails and changes
/// nothing, that gate's comments included.
pub proof fn law_delete_missing_comment(
    m0: Map<GateKeyView, GateView>,
    m1: Map<GateKeyView, GateView>,
    k: GateKeyView,
    id: Seq<char>,
    t: UtcDateTime,
    r: Result<crate::types::Gate, UpdateError>,
)
    requires
        m0.contains_key(k),
        !has_comment(m0[k].comments, id),
        update_outcome(
            m0,
            m1,
            k,
            m0.contains_key(k) && has_comment(m0[k].comments, id),
            with_comment_removed(m0[k], id, t),
            r,
        ),
    ensures
        r is Err,
        m1 == m0,
        m1[k].comments == m0[k].comments,
{
}

/// A weekday without a window is closed at every time of that day.
pub proof fn law_day_without_window_is_closed(w: BusinessWeek, t: UtcDateTime)
    requires
        times_on(w, weekday_of(t.secs as int)) is None,
    ensures
        closed_at(w, t),
{
}

/// The demo wrapper shows the wrapped store unchanged, and forwards a comment
/// with its own id and creation time but the canned message.
pub proof fn law_read_only_forwards<S: Storage>(ro: ReadOnlyStorage<S>, c: CommentView)
    ensures
        ro.gates() == ro.proxy.gates(),
        ro.stored_comment(c) == ro.proxy.stored_comment(sanitized(c)),
        sanitized(c).id == c.id,
        sanitized(c).created == c.created,
        sanitized(c).message == demo_quote(),
{
}

/// A new gate is closed, without comments or display order; adding a comment
/// created at `t1` leaves that one comment and stamps `t1`; deleting it by
/// its id leaves no comment and stamps the deletion time `t2`.
pub proof fn law_gate_life_cycle(k: GateKeyView, t0: UtcDateTime, c: CommentView, t1: UtcDateTime, t2: UtcDateTime)
    requires
        c.created == t1,
    ensures
        ({
            let g0 = fresh_gate(k, t0, None);
            let g1 = with_comment(g0, c, t1);
            let g2 = with_comment_removed(g1, c.id, t2);
            &&& g0.state == GateState::Closed && g0.comments.len() == 0 && g0.display_order is None
            &&& g1.comments == seq![c] && g1.last_updated == c.created
            &&& has_comment(g1.comments, c.id)
            &&& g2.comments.len() == 0 && g2.last_updated == t2
        }),
{
    let g0 = fresh_gate(k, t0, None);
    let g1 = with_comment(g0, c, t1);
    assert(!has_comment(g0.comments, c.id));
    assert(g1.comments =~= seq![c]);
    assert(g1.comments[0].id == c.id);
    lemma_comment_index_unique(g1.comments, 0);
}

} // verus!
