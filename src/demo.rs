use vstd::prelude::*;

use crate::storage::{DeleteError, FindError, InsertError, Storage, UpdateError};
use crate::types::{Comment, CommentView, Gate, GateKey, GateKeyView, GateState, GateView, UtcDateTime};

verus! {

/// The phrase that replaces every comment message in demo mode.
pub open spec fn demo_quote() -> Seq<char> {
    "random quote"@
}

/// The canned phrase that stands in for a comment message.
pub fn random_quote() -> (r: String)
    ensures
        r@ == demo_quote(),
{
    "random quote".to_owned()
}

/// A comment as the demo forwards it: same id and creation time, canned message.
pub open spec fn sanitized(c: CommentView) -> CommentView {
    CommentView { message: demo_quote(), ..c }
}

/// Wraps a repository for open demo deployments: gates cannot be created or
/// deleted, and comment text is replaced by a canned phrase.
pub struct ReadOnlyStorage<S> {
    pub proxy: S,
}

impl<S: Storage> ReadOnlyStorage<S> {
    pub fn new(proxy: S) -> (r: ReadOnlyStorage<S>)
        ensures
            r.proxy == proxy,
    {
        ReadOnlyStorage { proxy }
    }
}

impl<S: Storage> Storage for ReadOnlyStorage<S> {
    open spec fn gates(&self) -> Map<GateKeyView, GateView> {
        self.proxy.gates()
    }

    open spec fn inv(&self) -> bool {
        self.proxy.inv()
    }

    open spec fn stored_comment(&self, c: CommentView) -> CommentView {
        self.proxy.stored_comment(sanitized(c))
    }

    fn insert(&mut self, _gate: &Gate) -> (r: Result<(), InsertError>)
        ensures
            r matches Err(InsertError::NotPermitted(_)),
            final(self).proxy == old(self).proxy,
    {
        Err(InsertError::NotPermitted("not allowed in demo mode".to_owned()))
    }

    fn find_one(&self, key: GateKey) -> (r: Result<Option<Gate>, FindError>) {
        self.proxy.find_one(key)
    }

    fn find_all(&self) -> (r: Result<Vec<Gate>, FindError>) {
        self.proxy.find_all()
    }

    fn delete(&mut self, _key: GateKey) -> (r: Result<(), DeleteError>)
        ensures
            r matches Err(DeleteError::NotPermitted(_)),
            final(self).proxy == old(self).proxy,
    {
        Err(DeleteError::NotPermitted("not allowed in demo mode".to_owned()))
    }

    fn update_state_and_last_updated(
        &mut self,
        key: GateKey,
        state: GateState,
        last_updated: UtcDateTime,
    ) -> (r: Result<Gate, UpdateError>) {
        self.proxy.update_state_and_last_updated(key, state, last_updated)
    }

    fn update_display_order_and_last_updated(
        &mut self,
        key: GateKey,
        display_order: u32,
        last_updated: UtcDateTime,
    ) -> (r: Result<Gate, UpdateError>) {
        self.proxy.update_display_order_and_last_updated(key, display_order, last_updated)
    }

    fn update_comment_and_last_updated(
        &mut self,
        key: GateKey,
        comment: Comment,
        last_updated: UtcDateTime,
    ) -> (r: Result<Gate, UpdateError>) {
        let forwarded = Comment { id: comment.id, message: random_quote(), created: comment.created };
        assert(forwarded@ == sanitized(comment@));
        self.proxy.update_comment_and_last_updated(key, forwarded, last_updated)
    }

    fn delete_comment_by_id_and_update_last_updated(
        &mut self,
        key: GateKey,
        comment_id: String,
        last_updated: UtcDateTime,
    ) -> (r: Result<Gate, UpdateError>) {
        self.proxy.delete_comment_by_id_and_update_last_updated(key, comment_id, last_updated)
    }
}

/// A source of phrases for demo comments.
pub trait QuotesProvider {
    fn random_quote(&self) -> Result<String, String>;
}

/// Picks one of its phrases by the current time.
pub struct RandomQuotesProvider {
    pub quotes: Vec<String>,
}

/// Relies on `std::time::SystemTime::now`, read as milliseconds since
/// `UNIX_EPOCH`: the system clock's reading, or `None` before the epoch.
#[verifier::external_body]
fn unix_millis_now() -> (r: Option<u64>) {
    std::time::SystemTime::now().duration_since(std::time::UNIX_EPOCH).ok().map(
        |d| d.as_millis() as u64,
    )
}

impl RandomQuotesProvider {
    pub fn new_boxed(quotes: Vec<String>) -> (r: Box<RandomQuotesProvider>)
        ensures
            r.quotes@ == quotes@,
    {
        Box::new(RandomQuotesProvider { quotes })
    }

    /// The phrase that the clock reading `millis` selects.
    pub fn quote_at(&self, millis: u64) -> (r: Result<String, String>)
        ensures
            r is Ok <==> self.quotes@.len() > 0,
            r matches Ok(q) ==> q@ == self.quotes@[(millis as int % self.quotes@.len() as int)]@,
    {
        let n = self.quotes.len();
        if n == 0 {
            Err("file not found".to_owned())
        } else {
            let i = (millis % (n as u64)) as usize;
            Ok(self.quotes[i].clone())
        }
    }
}

impl QuotesProvider for RandomQuotesProvider {
    fn random_quote(&self) -> (r: Result<String, String>) {
        match unix_millis_now() {
            Some(millis) => self.quote_at(millis),
            None => Err("system time not retrieved".to_owned()),
        }
    }
}

/// Always hands out the same phrase.
pub struct FakeQuotesProvider {
    pub quote: String,
}

impl FakeQuotesProvider {
    pub fn new() -> (r: FakeQuotesProvider)
        ensures
            r.quote@ == demo_quote(),
    {
        FakeQuotesProvider { quote: random_quote() }
    }
}

impl QuotesProvider for FakeQuotesProvider {
    fn random_quote(&self) -> (r: Result<String, String>) {
        Ok(self.quote.clone())
    }
}

} // verus!
