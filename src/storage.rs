use vstd::prelude::*;

use crate::types::{
    unique_comment_ids, upserted_comments, without_comment, has_comment, Comment, CommentView, Gate,
    GateKey, GateKeyView, GateState, GateView, UtcDateTime,
};

verus! {

#[derive(Clone, Debug, PartialEq, Eq)]
pub enum UpdateError {
    ItemToUpdateNotFound(String),
    Other(String),
}

#[derive(Clone, Debug, PartialEq, Eq)]
pub enum InsertError {
    ItemAlreadyExists(String),
    NotPermitted(String),
    Other(String),
}

#[derive(Clone, Debug, PartialEq, Eq)]
pub enum FindError {
    ItemCouldNotBeDecoded(String),
    Other(String),
}

#[derive(Clone, Debug, PartialEq, Eq)]
pub enum DeleteError {
    ItemToDeleteNotFound(String),
    NotPermitted(String),
    Other(String),
}

/// Every stored gate sits under its own key and has unique comment ids.
pub open spec fn store_wf(m: Map<GateKeyView, GateView>) -> bool {
    forall|k: GateKeyView|
        #[trigger] m.contains_key(k) ==> m[k].key == k && unique_comment_ids(m[k].comments)
}

pub open spec fn gate_views(s: Seq<Gate>) -> Seq<GateView> {
    s.map_values(|g: Gate| g@)
}

/// `v` holds each stored gate once, in some order, and nothing else.
pub open spec fn lists_exactly(v: Seq<GateView>, m: Map<GateKeyView, GateView>) -> bool {
    &&& forall|i: int| 0 <= i < v.len() ==> m.contains_key(#[trigger] v[i].key) && m[v[i].key] == v[i]
    &&& forall|k: GateKeyView| #[trigger] m.contains_key(k) ==> exists|i: int| 0 <= i < v.len() && #[trigger] v[i].key == k
    &&& forall|i: int, j: int| 0 <= i < v.len() && 0 <= j < v.len() && i != j ==> #[trigger] v[i].key != #[trigger] v[j].key
}

pub open spec fn with_state(g: GateView, state: GateState, t: UtcDateTime) -> GateView {
    GateView { state, last_updated: t, ..g }
}

pub open spec fn with_display_order(g: GateView, order: u32, t: UtcDateTime) -> GateView {
    GateView { display_order: Some(order), last_updated: t, ..g }
}

pub open spec fn with_comment(g: GateView, c: CommentView, t: UtcDateTime) -> GateView {
    GateView { comments: upserted_comments(g.comments, c), last_updated: t, ..g }
}

pub open spec fn with_comment_removed(g: GateView, id: Seq<char>, t: UtcDateTime) -> GateView {
    GateView { comments: without_comment(g.comments, id), last_updated: t, ..g }
}

/// What an insert owes: success only on an absent key, with `g` then stored
/// verbatim; `ItemAlreadyExists` only on a present key; no failure changes the
/// store, except that a transport failure may hide a write that happened.
pub open spec fn insert_outcome(
    before: Map<GateKeyView, GateView>,
    after: Map<GateKeyView, GateView>,
    g: GateView,
    r: Result<(), InsertError>,
) -> bool {
    match r {
        Ok(_) => !before.contains_key(g.key) && after == before.insert(g.key, g),
        Err(InsertError::ItemAlreadyExists(_)) => before.contains_key(g.key) && after == before,
        Err(InsertError::NotPermitted(_)) => after == before,
        Err(InsertError::Other(_)) => after == before || (!before.contains_key(g.key) && after
            == before.insert(g.key, g)),
    }
}

/// What a delete owes, in the same way as `insert_outcome`.
pub open spec fn delete_outcome(
    before: Map<GateKeyView, GateView>,
    after: Map<GateKeyView, GateView>,
    k: GateKeyView,
    r: Result<(), DeleteError>,
) -> bool {
    match r {
        Ok(_) => before.contains_key(k) && after == before.remove(k),
        Err(DeleteError::ItemToDeleteNotFound(_)) => !before.contains_key(k) && after == before,
        Err(DeleteError::NotPermitted(_)) => after == before,
        Err(DeleteError::Other(_)) => after == before || (before.contains_key(k) && after
            == before.remove(k)),
    }
}

/// What an update owes: when `found` (its precondition) holds, success stores
/// and returns `next` under `k`; `ItemToUpdateNotFound` only when `found`
/// fails, with nothing changed; a transport failure changes nothing or
/// applies the update.
pub open spec fn update_outcome(
    before: Map<GateKeyView, GateView>,
    after: Map<GateKeyView, GateView>,
    k: GateKeyView,
    found: bool,
    next: GateView,
    r: Result<Gate, UpdateError>,
) -> bool {
    match r {
        Ok(g) => found && g@ == next && after == before.insert(k, next),
        Err(UpdateError::ItemToUpdateNotFound(_)) => !found && after == before,
        Err(UpdateError::Other(_)) => after == before || (found && after == before.insert(k, next)),
    }
}

/// A repository of gates, each addressed by its key, with every write
/// conditional on the presence or absence of what it addresses.
pub trait Storage {
    /// The stored gates, by key. Every verified implementation gives its own.
    open spec fn gates(&self) -> Map<GateKeyView, GateView> {
        Map::empty()
    }

    /// The implementation's own well-formedness.
    open spec fn inv(&self) -> bool {
        true
    }

    /// The comment that `update_comment_and_last_updated` stores for `c`:
    /// `c` itself unless an implementation says otherwise.
    open spec fn stored_comment(&self, c: CommentView) -> CommentView {
        c
    }

    fn insert(&mut self, gate: &Gate) -> (r: Result<(), InsertError>)
        requires
            old(self).inv(),
            store_wf(old(self).gates()),
            gate.wf(),
        ensures
            final(self).inv(),
            store_wf(final(self).gates()),
            insert_outcome(old(self).gates(), final(self).gates(), gate@, r),
    ;

    fn find_one(&self, key: GateKey) -> (r: Result<Option<Gate>, FindError>)
        requires
            self.inv(),
            store_wf(self.gates()),
        ensures
            r matches Ok(None) ==> !self.gates().contains_key(key@),
            r matches Ok(Some(g)) ==> self.gates().contains_key(key@) && g@ == self.gates()[key@],
    ;

    fn find_all(&self) -> (r: Result<Vec<Gate>, FindError>)
        requires
            self.inv(),
            store_wf(self.gates()),
        ensures
            r matches Ok(v) ==> lists_exactly(gate_views(v@), self.gates()),
    ;

    fn delete(&mut self, key: GateKey) -> (r: Result<(), DeleteError>)
        requires
            old(self).inv(),
            store_wf(old(self).gates()),
        ensures
            final(self).inv(),
            store_wf(final(self).gates()),
            delete_outcome(old(self).gates(), final(self).gates(), key@, r),
    ;

    fn update_state_and_last_updated(
        &mut self,
        key: GateKey,
        state: GateState,
        last_updated: UtcDateTime,
    ) -> (r: Result<Gate, UpdateError>)
        requires
            old(self).inv(),
            store_wf(old(self).gates()),
        ensures
            final(self).inv(),
            store_wf(final(self).gates()),
            update_outcome(
                old(self).gates(),
                final(self).gates(),
                key@,
                old(self).gates().contains_key(key@),
                with_state(old(self).gates()[key@], state, last_updated),
                r,
            ),
    ;

    fn update_display_order_and_last_updated(
        &mut self,
        key: GateKey,
        display_order: u32,
        last_updated: UtcDateTime,
    ) -> (r: Result<Gate, UpdateError>)
        requires
            old(self).inv(),
            store_wf(old(self).gates()),
        ensures
            final(self).inv(),
            store_wf(final(self).gates()),
            update_outcome(
                old(self).gates(),
                final(self).gates(),
                key@,
                old(self).gates().contains_key(key@),
                with_display_order(old(self).gates()[key@], display_order, last_updated),
                r,
            ),
    ;

    /// Inserts or overwrites the comment under its id.
    fn update_comment_and_last_updated(
        &mut self,
        key: GateKey,
        comment: Comment,
        last_updated: UtcDateTime,
    ) -> (r: Result<Gate, UpdateError>)
        requires
            old(self).inv(),
            store_wf(old(self).gates()),
        ensures
            final(self).inv(),
            store_wf(final(self).gates()),
            old(self).stored_comment(comment@).id == comment@.id,
            update_outcome(
                old(self).gates(),
                final(self).gates(),
                key@,
                old(self).gates().contains_key(key@),
                with_comment(
                    old(self).gates()[key@],
                    old(self).stored_comment(comment@),
                    last_updated,
                ),
                r,
            ),
    ;

    /// Removes the comment with this id; both a gate under `key` and the
    /// comment must exist.
    fn delete_comment_by_id_and_update_last_updated(
        &mut self,
        key: GateKey,
        comment_id: String,
        last_updated: UtcDateTime,
    ) -> (r: Result<Gate, UpdateError>)
        requires
            old(self).inv(),
            store_wf(old(self).gates()),
        ensures
            final(self).inv(),
            store_wf(final(self).gates()),
            update_outcome(
                old(self).gates(),
                final(self).gates(),
                key@,
                old(self).gates().contains_key(key@) && has_comment(
                    old(self).gates()[key@].comments,
                    comment_id@,
                ),
                with_comment_removed(old(self).gates()[key@], comment_id@, last_updated),
                r,
            ),
    ;
}

} // verus!
