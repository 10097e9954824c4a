use vstd::prelude::*;

use crate::storage::{
    gate_views, store_wf,
    with_comment, with_comment_removed, with_display_order, with_state, DeleteError, FindError,
    InsertError, Storage, UpdateError,
};
use crate::types::{has_comment, Comment, CommentView, Gate, GateKey, GateKeyView, GateState, GateView, UtcDateTime};

verus! {

/// A repository held in memory: gates in insertion order, one per key.
pub struct InMemoryStorage {
    gates: Vec<Gate>,
}

spec fn holds_key(s: Seq<Gate>, k: GateKeyView) -> bool {
    exists|i: int| 0 <= i < s.len() && #[trigger] s[i]@.key == k
}

spec fn key_map(s: Seq<Gate>) -> Map<GateKeyView, GateView> {
    Map::new(
        |k: GateKeyView| holds_key(s, k),
        |k: GateKeyView| s[choose|i: int| 0 <= i < s.len() && #[trigger] s[i]@.key == k]@,
    )
}

spec fn keys_unique(s: Seq<Gate>) -> bool {
    forall|i: int, j: int|
        0 <= i < s.len() && 0 <= j < s.len() && i != j ==> #[trigger] s[i]@.key != #[trigger] s[j]@.key
}

spec fn all_wf(s: Seq<Gate>) -> bool {
    forall|i: int| 0 <= i < s.len() ==> #[trigger] s[i].wf()
}

proof fn lemma_lookup(s: Seq<Gate>, i: int)
    requires
        keys_unique(s),
        0 <= i < s.len(),
    ensures
        key_map(s).contains_key(s[i]@.key),
        key_map(s)[s[i]@.key] == s[i]@,
{
    let k = s[i]@.key;
    assert(holds_key(s, k));
    let j = choose|j: int| 0 <= j < s.len() && #[trigger] s[j]@.key == k;
    assert(s[j]@.key == k);
}

proof fn lemma_push(s: Seq<Gate>, g: Gate)
    requires
        keys_unique(s),
        !holds_key(s, g@.key),
    ensures
        keys_unique(s.push(g)),
        key_map(s.push(g)) == key_map(s).insert(g@.key, g@),
{
    let t = s.push(g);
    assert(keys_unique(t)) by {
        assert forall|i: int, j: int| 0 <= i < t.len() && 0 <= j < t.len() && i != j implies #[trigger] t[i]@.key != #[trigger] t[j]@.key by {
            if i < s.len() && j < s.len() {
                assert(t[i] == s[i] && t[j] == s[j]);
            } else if i < s.len() {
                assert(t[i] == s[i]);
            } else {
                assert(t[j] == s[j]);
            }
        }
    }
    let m = key_map(s).insert(g@.key, g@);
    assert forall|k: GateKeyView| #[trigger] key_map(t).contains_key(k) == m.contains_key(k) by {
        if holds_key(t, k) && k != g@.key {
            let i = choose|i: int| 0 <= i < t.len() && #[trigger] t[i]@.key == k;
            assert(s[i]@.key == k);
        }
        if holds_key(s, k) {
            let i = choose|i: int| 0 <= i < s.len() && #[trigger] s[i]@.key == k;
            assert(t[i]@.key == k);
        }
        if k == g@.key {
            assert(t[s.len() as int]@.key == k);
        }
    }
    assert forall|k: GateKeyView| #[trigger] key_map(t).contains_key(k) implies key_map(t)[k] == m[k] by {
        if k == g@.key {
            lemma_lookup(t, s.len() as int);
        } else {
            let i = choose|i: int| 0 <= i < t.len() && #[trigger] t[i]@.key == k;
            lemma_lookup(t, i);
            assert(t[i] == s[i]);
            lemma_lookup(s, i);
        }
    }
    assert(key_map(t) =~= m);
}

proof fn lemma_update(s: Seq<Gate>, i: int, g: Gate)
    requires
        keys_unique(s),
        0 <= i < s.len(),
        s[i]@.key == g@.key,
    ensures
        keys_unique(s.update(i, g)),
        key_map(s.update(i, g)) == key_map(s).insert(g@.key, g@),
{
    let t = s.update(i, g);
    assert(keys_unique(t)) by {
        assert forall|a: int, b: int| 0 <= a < t.len() && 0 <= b < t.len() && a != b implies #[trigger] t[a]@.key != #[trigger] t[b]@.key by {
            assert(t[a]@.key == s[a]@.key);
            assert(t[b]@.key == s[b]@.key);
        }
    }
    let m = key_map(s).insert(g@.key, g@);
    assert forall|k: GateKeyView| #[trigger] key_map(t).contains_key(k) == m.contains_key(k) by {
        if holds_key(t, k) {
            let a = choose|a: int| 0 <= a < t.len() && #[trigger] t[a]@.key == k;
            assert(s[a]@.key == k);
        }
        if holds_key(s, k) {
            let a = choose|a: int| 0 <= a < s.len() && #[trigger] s[a]@.key == k;
            assert(t[a]@.key == k);
        }
        if k == g@.key {
            assert(t[i]@.key == k);
        }
    }
    assert forall|k: GateKeyView| #[trigger] key_map(t).contains_key(k) implies key_map(t)[k] == m[k] by {
        let a = choose|a: int| 0 <= a < t.len() && #[trigger] t[a]@.key == k;
        lemma_lookup(t, a);
        if a != i {
            assert(t[a] == s[a]);
            lemma_lookup(s, a);
        }
    }
    assert(key_map(t) =~= m);
}

proof fn lemma_remove(s: Seq<Gate>, i: int)
    requires
        keys_unique(s),
        0 <= i < s.len(),
    ensures
        keys_unique(s.remove(i)),
        key_map(s.remove(i)) == key_map(s).remove(s[i]@.key),
{
    let t = s.remove(i);
    let old_index = |a: int| if a < i { a } else { a + 1 };
    assert forall|a: int| 0 <= a < t.len() implies #[trigger] t[a] == s[old_index(a)] by {}
    assert(keys_unique(t)) by {
        assert forall|a: int, b: int| 0 <= a < t.len() && 0 <= b < t.len() && a != b implies #[trigger] t[a]@.key != #[trigger] t[b]@.key by {
            assert(t[a] == s[old_index(a)]);
            assert(t[b] == s[old_index(b)]);
        }
    }
    let k0 = s[i]@.key;
    let m = key_map(s).remove(k0);
    assert forall|k: GateKeyView| #[trigger] key_map(t).contains_key(k) == m.contains_key(k) by {
        if holds_key(t, k) {
            let a = choose|a: int| 0 <= a < t.len() && #[trigger] t[a]@.key == k;
            assert(t[a] == s[old_index(a)]);
            assert(s[old_index(a)]@.key == k);
        }
        if holds_key(s, k) && k != k0 {
            let a = choose|a: int| 0 <= a < s.len() && #[trigger] s[a]@.key == k;
            let b = if a < i { a } else { a - 1 };
            assert(t[b] == s[old_index(b)]);
            assert(t[b]@.key == k);
        }
    }
    assert forall|k: GateKeyView| #[trigger] key_map(t).contains_key(k) implies key_map(t)[k] == m[k] by {
        let a = choose|a: int| 0 <= a < t.len() && #[trigger] t[a]@.key == k;
        lemma_lookup(t, a);
        assert(t[a] == s[old_index(a)]);
        lemma_lookup(s, old_index(a));
    }
    assert(key_map(t) =~= m);
}

proof fn lemma_store_wf(s: Seq<Gate>)
    requires
        keys_unique(s),
        all_wf(s),
    ensures
        store_wf(key_map(s)),
{
    assert forall|k: GateKeyView| #[trigger] key_map(s).contains_key(k) implies key_map(s)[k].key == k
        && crate::types::unique_comment_ids(key_map(s)[k].comments) by {
        let i = choose|i: int| 0 <= i < s.len() && #[trigger] s[i]@.key == k;
        lemma_lookup(s, i);
        assert(s[i].wf());
    }
}

impl InMemoryStorage {
    pub fn new() -> (r: InMemoryStorage)
        ensures
            r.inv(),
            store_wf(r.gates()),
            r.gates() == Map::<GateKeyView, GateView>::empty(),
    {
        let r = InMemoryStorage { gates: Vec::new() };
        assert(key_map(r.gates@) =~= Map::<GateKeyView, GateView>::empty());
        proof {
            lemma_store_wf(r.gates@);
        }
        r
    }

    /// Position of the entry with this key, if any.
    fn find_index(&self, key: &GateKey) -> (r: Option<usize>)
        ensures
            r matches Some(i) ==> i < self.gates@.len() && self.gates@[i as int]@.key == key@,
            r is None ==> !holds_key(self.gates@, key@),
    {
        let mut i: usize = 0;
        while i < self.gates.len()
            invariant
                i <= self.gates@.len(),
                forall|j: int| 0 <= j < i ==> #[trigger] self.gates@[j]@.key != key@,
            decreases self.gates@.len() - i,
        {
            if self.gates[i].key.same_as(key) {
                return Some(i);
            }
            i = i + 1;
        }
        None
    }

    /// Stores `g` at position `i`, where the entry with the same key was, and
    /// hands back a copy.
    fn replace_at(&mut self, i: usize, g: Gate) -> (r: Gate)
        requires
            old(self).inv(),
            i < old(self).gates@.len(),
            old(self).gates@[i as int]@.key == g@.key,
            g.wf(),
        ensures
            final(self).inv(),
            store_wf(final(self).gates()),
            final(self).gates() == old(self).gates().insert(g@.key, g@),
            r@ == g@,
    {
        let r = g.duplicate();
        proof {
            lemma_update(self.gates@, i as int, g);
        }
        let ghost before = self.gates@;
        self.gates.set(i, g);
        assert forall|j: int| 0 <= j < self.gates@.len() implies #[trigger] self.gates@[j].wf() by {
            if j != i {
                assert(self.gates@[j] == before[j]);
            }
        }
        proof {
            lemma_store_wf(self.gates@);
        }
        r
    }
}

impl Storage for InMemoryStorage {
    closed spec fn gates(&self) -> Map<GateKeyView, GateView> {
        key_map(self.gates@)
    }

    closed spec fn inv(&self) -> bool {
        keys_unique(self.gates@) && all_wf(self.gates@)
    }

    open spec fn stored_comment(&self, c: CommentView) -> CommentView {
        c
    }

    fn insert(&mut self, gate: &Gate) -> (r: Result<(), InsertError>)
        ensures
            r is Ok <==> !old(self).gates().contains_key(gate@.key),
            r is Err ==> r matches Err(InsertError::ItemAlreadyExists(_)),
    {
        match self.find_index(&gate.key) {
            Some(i) => {
                proof {
                    lemma_lookup(self.gates@, i as int);
                }
                Err(InsertError::ItemAlreadyExists("gate already exists".to_owned()))
            },
            None => {
                let g = gate.duplicate();
                proof {
                    lemma_push(self.gates@, g);
                }
                let ghost before = self.gates@;
                self.gates.push(g);
                assert forall|j: int| 0 <= j < self.gates@.len() implies #[trigger] self.gates@[j].wf() by {
                    if j < before.len() {
                        assert(self.gates@[j] == before[j]);
                    }
                }
                proof {
                    lemma_store_wf(self.gates@);
                }
                Ok(())
            },
        }
    }

    fn find_one(&self, key: GateKey) -> (r: Result<Option<Gate>, FindError>)
        ensures
            r is Ok,
    {
        match self.find_index(&key) {
            Some(i) => {
                proof {
                    lemma_lookup(self.gates@, i as int);
                }
                Ok(Some(self.gates[i].duplicate()))
            },
            None => Ok(None),
        }
    }

    fn find_all(&self) -> (r: Result<Vec<Gate>, FindError>)
        ensures
            r is Ok,
    {
        let mut v: Vec<Gate> = Vec::new();
        let mut i: usize = 0;
        while i < self.gates.len()
            invariant
                i <= self.gates@.len(),
                v@.len() == i,
                forall|j: int| 0 <= j < i ==> #[trigger] v@[j]@ == self.gates@[j]@,
            decreases self.gates@.len() - i,
        {
            v.push(self.gates[i].duplicate());
            i = i + 1;
        }
        let ghost s = self.gates@;
        let ghost w = gate_views(v@);
        assert forall|j: int| 0 <= j < w.len() implies self.gates().contains_key(#[trigger] w[j].key)
            && self.gates()[w[j].key] == w[j] by {
            lemma_lookup(s, j);
        }
        assert forall|k: GateKeyView| #[trigger] self.gates().contains_key(k) implies exists|j: int|
            0 <= j < w.len() && #[trigger] w[j].key == k by {
            let j = choose|j: int| 0 <= j < s.len() && #[trigger] s[j]@.key == k;
            assert(w[j].key == k);
        }
        assert forall|a: int, b: int| 0 <= a < w.len() && 0 <= b < w.len() && a != b implies #[trigger] w[a].key
            != #[trigger] w[b].key by {
            assert(s[a]@.key != s[b]@.key);
        }
        Ok(v)
    }

    fn delete(&mut self, key: GateKey) -> (r: Result<(), DeleteError>)
        ensures
            r is Ok <==> old(self).gates().contains_key(key@),
            r is Err ==> r matches Err(DeleteError::ItemToDeleteNotFound(_)),
    {
        match self.find_index(&key) {
            Some(i) => {
                proof {
                    lemma_lookup(self.gates@, i as int);
                    lemma_remove(self.gates@, i as int);
                }
                let ghost before = self.gates@;
                self.gates.remove(i);
                assert forall|j: int| 0 <= j < self.gates@.len() implies #[trigger] self.gates@[j].wf() by {
                    if j < i {
                        assert(self.gates@[j] == before[j]);
                    } else {
                        assert(self.gates@[j] == before[j + 1]);
                    }
                }
                proof {
                    lemma_store_wf(self.gates@);
                }
                Ok(())
            },
            None => Err(DeleteError::ItemToDeleteNotFound("gate not found".to_owned())),
        }
    }

    fn update_state_and_last_updated(
        &mut self,
        key: GateKey,
        state: GateState,
        last_updated: UtcDateTime,
    ) -> (r: Result<Gate, UpdateError>)
        ensures
            r is Ok <==> old(self).gates().contains_key(key@),
            r is Err ==> r matches Err(UpdateError::ItemToUpdateNotFound(_)),
    {
        match self.find_index(&key) {
            Some(i) => {
                proof {
                    lemma_lookup(self.gates@, i as int);
                    assert(self.gates@[i as int].wf());
                }
                let mut g = self.gates[i].duplicate();
                g.state = state;
                g.last_updated = last_updated;
                assert(g@ == with_state(old(self).gates()[key@], state, last_updated));
                Ok(self.replace_at(i, g))
            },
            None => Err(UpdateError::ItemToUpdateNotFound("gate not found".to_owned())),
        }
    }

    fn update_display_order_and_last_updated(
        &mut self,
        key: GateKey,
        display_order: u32,
        last_updated: UtcDateTime,
    ) -> (r: Result<Gate, UpdateError>)
        ensures
            r is Ok <==> old(self).gates().contains_key(key@),
            r is Err ==> r matches Err(UpdateError::ItemToUpdateNotFound(_)),
    {
        match self.find_index(&key) {
            Some(i) => {
                proof {
                    lemma_lookup(self.gates@, i as int);
                    assert(self.gates@[i as int].wf());
                }
                let mut g = self.gates[i].duplicate();
                g.display_order = Some(display_order);
                g.last_updated = last_updated;
                assert(g@ == with_display_order(old(self).gates()[key@], display_order, last_updated));
                Ok(self.replace_at(i, g))
            },
            None => Err(UpdateError::ItemToUpdateNotFound("gate not found".to_owned())),
        }
    }

    fn update_comment_and_last_updated(
        &mut self,
        key: GateKey,
        comment: Comment,
        last_updated: UtcDateTime,
    ) -> (r: Result<Gate, UpdateError>)
        ensures
            r is Ok <==> old(self).gates().contains_key(key@),
            r is Err ==> r matches Err(UpdateError::ItemToUpdateNotFound(_)),
    {
        match self.find_index(&key) {
            Some(i) => {
                proof {
                    lemma_lookup(self.gates@, i as int);
                    assert(self.gates@[i as int].wf());
                }
                let mut g = self.gates[i].duplicate();
                g.upsert_comment(comment);
                g.last_updated = last_updated;
                assert(g@ == with_comment(old(self).gates()[key@], comment@, last_updated));
                Ok(self.replace_at(i, g))
            },
            None => Err(UpdateError::ItemToUpdateNotFound("gate not found".to_owned())),
        }
    }

    fn delete_comment_by_id_and_update_last_updated(
        &mut self,
        key: GateKey,
        comment_id: String,
        last_updated: UtcDateTime,
    ) -> (r: Result<Gate, UpdateError>)
        ensures
            r is Ok <==> old(self).gates().contains_key(key@) && has_comment(
                old(self).gates()[key@].comments,
                comment_id@,
            ),
            r is Err ==> r matches Err(UpdateError::ItemToUpdateNotFound(_)),
    {
        match self.find_index(&key) {
            Some(i) => {
                proof {
                    lemma_lookup(self.gates@, i as int);
                    assert(self.gates@[i as int].wf());
                }
                let mut g = self.gates[i].duplicate();
                if g.remove_comment(&comment_id) {
                    g.last_updated = last_updated;
                    assert(g@ == with_comment_removed(old(self).gates()[key@], comment_id@, last_updated));
                    Ok(self.replace_at(i, g))
                } else {
                    Err(UpdateError::ItemToUpdateNotFound("comment not found".to_owned()))
                }
            },
            None => Err(UpdateError::ItemToUpdateNotFound("gate not found".to_owned())),
        }
    }
}

} // verus!
