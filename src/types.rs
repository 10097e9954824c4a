use vstd::prelude::*;

verus! {

/// Earliest instant that the library represents: 0001-01-01T00:00:00Z.
pub const MIN_UNIX_SECONDS: i64 = -62135596800;

/// Latest whole second that the library represents: 9999-12-31T23:59:59Z.
pub const MAX_UNIX_SECONDS: i64 = 253402300799;

pub const NANOS_PER_SECOND: u32 = 1000000000;

/// An instant in UTC: whole seconds since 1970-01-01T00:00:00Z and the
/// nanoseconds within that second.
#[derive(Clone, Copy, Debug, PartialEq, Eq, Structural)]
pub struct UtcDateTime {
    pub secs: i64,
    pub nanos: u32,
}

impl UtcDateTime {
    /// Inside the four-digit years that RFC 3339 can write, with a
    /// sub-second part below one second.
    pub open spec fn wf(self) -> bool {
        &&& MIN_UNIX_SECONDS <= self.secs <= MAX_UNIX_SECONDS
        &&& self.nanos < NANOS_PER_SECOND
    }

    /// Builds an instant when `secs` and `nanos` are in range.
    pub fn new(secs: i64, nanos: u32) -> (r: Option<UtcDateTime>)
        ensures
            r is Some <==> (MIN_UNIX_SECONDS <= secs <= MAX_UNIX_SECONDS && nanos < NANOS_PER_SECOND),
            r matches Some(t) ==> t.secs == secs && t.nanos == nanos && t.wf(),
    {
        if MIN_UNIX_SECONDS <= secs && secs <= MAX_UNIX_SECONDS && nanos < NANOS_PER_SECOND {
            Some(UtcDateTime { secs, nanos })
        } else {
            None
        }
    }

    /// 1970-01-01T00:00:00Z.
    pub fn epoch() -> (r: UtcDateTime)
        ensures
            r.secs == 0 && r.nanos == 0,
            r.wf(),
    {
        UtcDateTime { secs: 0, nanos: 0 }
    }
}

/// The natural key of a gate.
#[derive(Clone, Debug, PartialEq, Eq)]
pub struct GateKey {
    pub group: String,
    pub service: String,
    pub environment: String,
}

pub struct GateKeyView {
    pub group: Seq<char>,
    pub service: Seq<char>,
    pub environment: Seq<char>,
}

impl View for GateKey {
    type V = GateKeyView;

    open spec fn view(&self) -> GateKeyView {
        GateKeyView { group: self.group@, service: self.service@, environment: self.environment@ }
    }
}

impl GateKey {
    pub fn new(group: &str, service: &str, environment: &str) -> (r: GateKey)
        ensures
            r@ == (GateKeyView { group: group@, service: service@, environment: environment@ }),
    {
        GateKey {
            group: group.to_owned(),
            service: service.to_owned(),
            environment: environment.to_owned(),
        }
    }

    /// Copies the key, field by field.
    pub fn duplicate(&self) -> (r: GateKey)
        ensures
            r@ == self@,
    {
        GateKey {
            group: self.group.clone(),
            service: self.service.clone(),
            environment: self.environment.clone(),
        }
    }

    /// Whether two keys name the same gate.
    pub fn same_as(&self, other: &GateKey) -> (r: bool)
        ensures
            r <==> self@ == other@,
    {
        let r = self.group == other.group && self.service == other.service && self.environment
            == other.environment;
        proof {
            if r {
                assert(self@ =~= other@);
            }
        }
        r
    }
}

/// Whether a gate lets traffic through.
#[derive(Clone, Copy, Debug, PartialEq, Eq, Structural)]
pub enum GateState {
    Open,
    Closed,
}

impl GateState {
    /// A new gate starts closed.
    pub fn default() -> (r: GateState)
        ensures
            r == GateState::Closed,
    {
        GateState::Closed
    }
}

/// A note attached to a gate, unique by `id` within it.
#[derive(Clone, Debug, PartialEq, Eq)]
pub struct Comment {
    pub id: String,
    pub message: String,
    pub created: UtcDateTime,
}

pub struct CommentView {
    pub id: Seq<char>,
    pub message: Seq<char>,
    pub created: UtcDateTime,
}

impl View for Comment {
    type V = CommentView;

    open spec fn view(&self) -> CommentView {
        CommentView { id: self.id@, message: self.message@, created: self.created }
    }
}

impl Comment {
    /// Copies the comment, field by field.
    pub fn duplicate(&self) -> (r: Comment)
        ensures
            r@ == self@,
    {
        Comment { id: self.id.clone(), message: self.message.clone(), created: self.created }
    }
}

/// A named on/off switch.
#[derive(Clone, Debug, PartialEq, Eq)]
pub struct Gate {
    pub key: GateKey,
    pub state: GateState,
    pub comments: Vec<Comment>,
    pub last_updated: UtcDateTime,
    pub display_order: Option<u32>,
}

pub struct GateView {
    pub key: GateKeyView,
    pub state: GateState,
    pub comments: Seq<CommentView>,
    pub last_updated: UtcDateTime,
    pub display_order: Option<u32>,
}

pub open spec fn comment_views(cs: Seq<Comment>) -> Seq<CommentView> {
    cs.map_values(|c: Comment| c@)
}

impl View for Gate {
    type V = GateView;

    open spec fn view(&self) -> GateView {
        GateView {
            key: self.key@,
            state: self.state,
            comments: comment_views(self.comments@),
            last_updated: self.last_updated,
            display_order: self.display_order,
        }
    }
}

/// No two comments share an id.
pub open spec fn unique_comment_ids(cs: Seq<CommentView>) -> bool {
    forall|i: int, j: int|
        0 <= i < cs.len() && 0 <= j < cs.len() && i != j ==> #[trigger] cs[i].id != #[trigger] cs[j].id
}

pub open spec fn has_comment(cs: Seq<CommentView>, id: Seq<char>) -> bool {
    exists|i: int| 0 <= i < cs.len() && #[trigger] cs[i].id == id
}

/// Position of the comment with this id (meaningful when `has_comment`).
pub open spec fn comment_index(cs: Seq<CommentView>, id: Seq<char>) -> int {
    choose|i: int| 0 <= i < cs.len() && #[trigger] cs[i].id == id
}

/// The comments after writing `c` under its id: the entry with that id is
/// replaced in place, or `c` is appended when there is none.
pub open spec fn upserted_comments(cs: Seq<CommentView>, c: CommentView) -> Seq<CommentView> {
    if has_comment(cs, c.id) {
        cs.update(comment_index(cs, c.id), c)
    } else {
        cs.push(c)
    }
}

/// The comments after removing the entry with this id.
pub open spec fn without_comment(cs: Seq<CommentView>, id: Seq<char>) -> Seq<CommentView> {
    cs.remove(comment_index(cs, id))
}

/// A freshly created gate: closed, without comments.
pub open spec fn fresh_gate(key: GateKeyView, now: UtcDateTime, display_order: Option<u32>) -> GateView {
    GateView { key, state: GateState::Closed, comments: Seq::empty(), last_updated: now, display_order }
}

impl Gate {
    /// Every comment id occurs once.
    pub open spec fn wf(&self) -> bool {
        unique_comment_ids(self@.comments)
    }

    /// A freshly created gate: closed, without comments.
    pub fn new(key: GateKey, now: UtcDateTime, display_order: Option<u32>) -> (r: Gate)
        ensures
            r@ == fresh_gate(key@, now, display_order),
            r.wf(),
    {
        let r = Gate {
            key,
            state: GateState::default(),
            comments: Vec::new(),
            last_updated: now,
            display_order,
        };
        assert(r@.comments =~= Seq::<CommentView>::empty());
        r
    }

    /// Copies a gate, field by field.
    pub fn duplicate(&self) -> (r: Gate)
        ensures
            r@ == self@,
    {
        let mut comments: Vec<Comment> = Vec::new();
        let mut i: usize = 0;
        while i < self.comments.len()
            invariant
                i <= self.comments@.len(),
                comments@.len() == i,
                forall|j: int| 0 <= j < i ==> #[trigger] comments@[j]@ == self.comments@[j]@,
            decreases self.comments@.len() - i,
        {
            let c = self.comments[i].duplicate();
            comments.push(c);
            i = i + 1;
        }
        assert(comment_views(comments@) =~= comment_views(self.comments@));
        Gate {
            key: self.key.duplicate(),
            state: self.state,
            comments,
            last_updated: self.last_updated,
            display_order: self.display_order,
        }
    }
}

/// With unique ids, the comment carrying `cs[i].id` is the one at `i`.
pub proof fn lemma_comment_index_unique(cs: Seq<CommentView>, i: int)
    requires
        unique_comment_ids(cs),
        0 <= i < cs.len(),
    ensures
        has_comment(cs, cs[i].id),
        comment_index(cs, cs[i].id) == i,
{
    assert(cs[i].id == cs[i].id);
    let j = comment_index(cs, cs[i].id);
    assert(0 <= j < cs.len() && cs[j].id == cs[i].id);
}

impl Gate {
    /// Position of the comment with this id, if any.
    pub fn find_comment(&self, id: &String) -> (r: Option<usize>)
        ensures
            r matches Some(i) ==> i < self.comments@.len() && self@.comments[i as int].id == id@,
            r is None ==> !has_comment(self@.comments, id@),
    {
        let mut i: usize = 0;
        while i < self.comments.len()
            invariant
                i <= self.comments@.len(),
                forall|j: int| 0 <= j < i ==> #[trigger] self@.comments[j].id != id@,
            decreases self.comments@.len() - i,
        {
            if self.comments[i].id == *id {
                return Some(i);
            }
            i = i + 1;
        }
        None
    }

    /// Writes `c` under its id: overwrites the comment with that id in place,
    /// or appends `c` when there is none.
    pub fn upsert_comment(&mut self, c: Comment)
        requires
            old(self).wf(),
        ensures
            final(self)@ == (GateView { comments: upserted_comments(old(self)@.comments, c@), ..old(self)@ }),
            final(self).wf(),
    {
        let ghost before = self@.comments;
        match self.find_comment(&c.id) {
            Some(i) => {
                proof {
                    lemma_comment_index_unique(before, i as int);
                }
                self.comments.set(i, c);
                assert(self@.comments =~= before.update(i as int, c@));
            },
            None => {
                self.comments.push(c);
                assert(self@.comments =~= before.push(c@));
            },
        }
    }

    /// Removes the comment with this id; tells whether there was one.
    pub fn remove_comment(&mut self, id: &String) -> (r: bool)
        requires
            old(self).wf(),
        ensures
            r == has_comment(old(self)@.comments, id@),
            r ==> final(self)@ == (GateView { comments: without_comment(old(self)@.comments, id@), ..old(self)@ }),
            !r ==> final(self)@ == old(self)@,
            final(self).wf(),
    {
        let ghost before = self@.comments;
        match self.find_comment(id) {
            Some(i) => {
                proof {
                    lemma_comment_index_unique(before, i as int);
                }
                self.comments.remove(i);
                assert(self@.comments =~= before.remove(i as int));
                assert forall|a: int, b: int|
                    0 <= a < self@.comments.len() && 0 <= b < self@.comments.len() && a != b
                        implies #[trigger] self@.comments[a].id != #[trigger] self@.comments[b].id by {
                    let a0 = if a < i { a } else { a + 1 };
                    let b0 = if b < i { b } else { b + 1 };
                    assert(self@.comments[a] == before[a0]);
                    assert(self@.comments[b] == before[b0]);
                }
                true
            },
            None => false,
        }
    }
}

} // verus!
