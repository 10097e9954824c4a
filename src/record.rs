use vstd::prelude::*;
use vstd::string::*;

use crate::datetime::{decimal_text, decimal_u32, instant_of, parse_decimal_u32, rfc3339_text, u32_to_decimal};
use crate::types::{comment_views, Comment, CommentView, Gate, GateKey, GateKeyView, GateState, GateView, UtcDateTime};

verus! {

/// A value in a stored record: a string, a number written in decimal, or a
/// map of named values.
#[derive(Debug, PartialEq, Eq)]
pub enum AttributeValue {
    S(String),
    N(String),
    M(Vec<Attribute>),
}

/// A named value of a record.
#[derive(Debug, PartialEq, Eq)]
pub struct Attribute {
    pub name: String,
    pub value: AttributeValue,
}

/// The value of the first entry named `name`, from position `i` on.
pub open spec fn field_from(rec: Seq<Attribute>, name: Seq<char>, i: int) -> Option<AttributeValue>
    decreases rec.len() - i,
{
    if 0 <= i < rec.len() {
        if rec[i].name@ == name {
            Some(rec[i].value)
        } else {
            field_from(rec, name, i + 1)
        }
    } else {
        None
    }
}

/// The value of the entry named `name`.
pub open spec fn field(rec: Seq<Attribute>, name: Seq<char>) -> Option<AttributeValue> {
    field_from(rec, name, 0)
}

pub open spec fn text_of(v: Option<AttributeValue>) -> Option<Seq<char>> {
    match v {
        Some(AttributeValue::S(s)) => Some(s@),
        _ => None,
    }
}

pub open spec fn text_field(rec: Seq<Attribute>, name: Seq<char>) -> Option<Seq<char>> {
    text_of(field(rec, name))
}

pub open spec fn instant_field(rec: Seq<Attribute>, name: Seq<char>) -> Option<UtcDateTime> {
    match text_field(rec, name) {
        Some(t) => instant_of(t),
        None => None,
    }
}

/// An optional number: absent is `Some(None)`, a readable `N` is
/// `Some(Some(n))`, anything else does not decode (`None`).
pub open spec fn optional_u32_field(rec: Seq<Attribute>, name: Seq<char>) -> Option<Option<u32>> {
    match field(rec, name) {
        None => Some(None),
        Some(AttributeValue::N(d)) => match decimal_u32(d@) {
            Some(n) => Some(Some(n)),
            None => None,
        },
        Some(_) => None,
    }
}

pub open spec fn state_name(s: GateState) -> Seq<char> {
    match s {
        GateState::Open => "open"@,
        GateState::Closed => "closed"@,
    }
}

pub open spec fn state_from_name(t: Seq<char>) -> Option<GateState> {
    if t == "open"@ {
        Some(GateState::Open)
    } else if t == "closed"@ {
        Some(GateState::Closed)
    } else {
        None
    }
}

/// The comment that a record of `id`, `message` and `created` describes.
pub open spec fn decoded_comment(rec: Seq<Attribute>) -> Option<CommentView> {
    let id = text_field(rec, "id"@);
    let message = text_field(rec, "message"@);
    let created = instant_field(rec, "created"@);
    if id is Some && message is Some && created is Some {
        Some(CommentView { id: id.unwrap(), message: message.unwrap(), created: created.unwrap() })
    } else {
        None
    }
}

pub open spec fn entry_comment(v: AttributeValue) -> Option<CommentView> {
    match v {
        AttributeValue::M(fs) => decoded_comment(fs@),
        _ => None,
    }
}

/// The comments of a map from comment id to comment record, in entry order.
pub open spec fn decoded_comments(es: Seq<Attribute>) -> Option<Seq<CommentView>> {
    if forall|j: int| 0 <= j < es.len() ==> (#[trigger] entry_comment(es[j].value)) is Some {
        Some(Seq::new(es.len(), |j: int| entry_comment(es[j].value).unwrap()))
    } else {
        None
    }
}

pub open spec fn comments_field(rec: Seq<Attribute>) -> Option<Seq<CommentView>> {
    match field(rec, "comments"@) {
        Some(AttributeValue::M(es)) => decoded_comments(es@),
        _ => None,
    }
}

/// What gate a stored record describes, if it describes one.
pub open spec fn decoded_gate(rec: Seq<Attribute>) -> Option<GateView> {
    let group = text_field(rec, "group"@);
    let service = text_field(rec, "service"@);
    let environment = text_field(rec, "environment"@);
    let state = match text_field(rec, "state"@) {
        Some(t) => state_from_name(t),
        None => None,
    };
    let comments = comments_field(rec);
    let last_updated = instant_field(rec, "last_updated"@);
    let display_order = optional_u32_field(rec, "display_order"@);
    if group is Some && service is Some && environment is Some && state is Some && comments is Some
        && last_updated is Some && display_order is Some {
        Some(
            GateView {
                key: GateKeyView {
                    group: group.unwrap(),
                    service: service.unwrap(),
                    environment: environment.unwrap(),
                },
                state: state.unwrap(),
                comments: comments.unwrap(),
                last_updated: last_updated.unwrap(),
                display_order: display_order.unwrap(),
            },
        )
    } else {
        None
    }
}

/// The sort key: service and environment joined by `#`.
pub open spec fn service_environment(service: Seq<char>, environment: Seq<char>) -> Seq<char> {
    service + "#"@ + environment
}

pub fn get_service_environment(service: &str, environment: &str) -> (r: String)
    ensures
        r@ == service_environment(service@, environment@),
{
    let mut r = String::from_str(service);
    r.append("#");
    r.append(environment);
    r
}

/// The value of the entry named `name`.
pub fn find_field<'a>(rec: &'a Vec<Attribute>, name: &str) -> (r: Option<&'a AttributeValue>)
    ensures
        r matches Some(v) ==> field(rec@, name@) == Some(*v),
        r is None ==> field(rec@, name@) is None,
{
    let wanted = name.to_owned();
    let mut i: usize = 0;
    while i < rec.len()
        invariant
            i <= rec@.len(),
            wanted@ == name@,
            field(rec@, name@) == field_from(rec@, name@, i as int),
        decreases rec@.len() - i,
    {
        if rec[i].name == wanted {
            return Some(&rec[i].value);
        }
        i = i + 1;
    }
    None
}

fn missing(name: &str, what: &str) -> (r: String) {
    let mut r = String::from_str("field ");
    r.append(name);
    r.append(what);
    r
}

pub fn decode_string(name: &str, rec: &Vec<Attribute>) -> (r: Result<String, String>)
    ensures
        r matches Ok(s) ==> text_field(rec@, name@) == Some(s@),
        r is Err ==> text_field(rec@, name@) is None,
{
    match find_field(rec, name) {
        Some(AttributeValue::S(s)) => Ok(s.clone()),
        Some(_) => Err(missing(name, " could not be parsed as string")),
        None => Err(missing(name, " could not be found")),
    }
}

pub fn decode_datetime_utc(name: &str, rec: &Vec<Attribute>) -> (r: Result<UtcDateTime, String>)
    ensures
        r matches Ok(t) ==> instant_field(rec@, name@) == Some(t),
        r is Err ==> instant_field(rec@, name@) is None,
{
    let text = decode_string(name, rec)?;
    match UtcDateTime::parse_from_rfc3339(text.as_str()) {
        Some(t) => Ok(t),
        None => Err(missing(name, " could not be parsed as datetime")),
    }
}

pub fn decode_optional_u32(name: &str, rec: &Vec<Attribute>) -> (r: Result<Option<u32>, String>)
    ensures
        r matches Ok(n) ==> optional_u32_field(rec@, name@) == Some(n),
        r is Err ==> optional_u32_field(rec@, name@) is None,
{
    match find_field(rec, name) {
        None => Ok(None),
        Some(AttributeValue::N(d)) => match parse_decimal_u32(d.as_str()) {
            Some(n) => Ok(Some(n)),
            None => Err(missing(name, " could not be parsed as u32")),
        },
        Some(_) => Err(missing(name, " could not be parsed as number")),
    }
}

impl GateState {
    /// `open` or `closed`.
    pub fn as_str(self) -> (r: &'static str)
        ensures
            r@ == state_name(self),
    {
        match self {
            GateState::Open => "open",
            GateState::Closed => "closed",
        }
    }

    /// Reads `open` or `closed`.
    pub fn parse(s: &str) -> (r: Option<GateState>)
        ensures
            r == state_from_name(s@),
    {
        let t = s.to_owned();
        if t == String::from_str("open") {
            Some(GateState::Open)
        } else if t == String::from_str("closed") {
            Some(GateState::Closed)
        } else {
            None
        }
    }
}

pub fn decode_comment(rec: &Vec<Attribute>) -> (r: Result<Comment, String>)
    ensures
        r matches Ok(c) ==> decoded_comment(rec@) == Some(c@),
        r is Err ==> decoded_comment(rec@) is None,
{
    let id = decode_string("id", rec)?;
    let message = decode_string("message", rec)?;
    let created = decode_datetime_utc("created", rec)?;
    Ok(Comment { id, message, created })
}

fn decode_comments(es: &Vec<Attribute>) -> (r: Result<Vec<Comment>, String>)
    ensures
        r matches Ok(v) ==> decoded_comments(es@) == Some(comment_views(v@)),
        r is Err ==> decoded_comments(es@) is None,
{
    let mut out: Vec<Comment> = Vec::new();
    let mut i: usize = 0;
    while i < es.len()
        invariant
            i <= es@.len(),
            out@.len() == i,
            forall|j: int| 0 <= j < i ==> (#[trigger] entry_comment(es@[j].value)) == Some(out@[j]@),
        decreases es@.len() - i,
    {
        match &es[i].value {
            AttributeValue::M(fs) => match decode_comment(fs) {
                Ok(c) => out.push(c),
                Err(e) => {
                    assert(entry_comment(es@[i as int].value) is None);
                    return Err(e);
                },
            },
            _ => {
                assert(entry_comment(es@[i as int].value) is None);
                let mut e = String::from_str("comment ");
                e.append(es[i].name.as_str());
                e.append(" could not be parsed");
                return Err(e);
            },
        }
        i = i + 1;
    }
    assert(Seq::new(es@.len(), |j: int| entry_comment(es@[j].value).unwrap()) =~= comment_views(out@));
    Ok(out)
}

/// Reads a gate back from its stored record; any field that is missing or
/// unreadable fails the whole record.
pub fn decode_gate(rec: &Vec<Attribute>) -> (r: Result<Gate, String>)
    ensures
        r matches Ok(g) ==> decoded_gate(rec@) == Some(g@),
        r is Err ==> decoded_gate(rec@) is None,
{
    let group = decode_string("group", rec)?;
    let service = decode_string("service", rec)?;
    let environment = decode_string("environment", rec)?;
    let state_text = decode_string("state", rec)?;
    let state = match GateState::parse(state_text.as_str()) {
        Some(s) => s,
        None => {
            let mut e = String::from_str("cannot convert ");
            e.append(state_text.as_str());
            e.append(" to GateState");
            return Err(e);
        },
    };
    let comments = match find_field(rec, "comments") {
        Some(AttributeValue::M(es)) => decode_comments(es)?,
        Some(_) => return Err(missing("comments", " could not be parsed as map")),
        None => return Err(missing("comments", " could not be found")),
    };
    let last_updated = decode_datetime_utc("last_updated", rec)?;
    let display_order = decode_optional_u32("display_order", rec)?;
    Ok(Gate { key: GateKey { group, service, environment }, state, comments, last_updated, display_order })
}

/// The first entry named `name` sits at `i`.
pub proof fn lemma_field_at(rec: Seq<Attribute>, name: Seq<char>, i: int)
    requires
        0 <= i < rec.len(),
        rec[i].name@ == name,
        forall|j: int| 0 <= j < i ==> #[trigger] rec[j].name@ != name,
    ensures
        field(rec, name) == Some(rec[i].value),
{
    lemma_field_from_at(rec, name, 0, i);
}

proof fn lemma_field_from_at(rec: Seq<Attribute>, name: Seq<char>, k: int, i: int)
    requires
        0 <= k <= i < rec.len(),
        rec[i].name@ == name,
        forall|j: int| 0 <= j < i ==> #[trigger] rec[j].name@ != name,
    ensures
        field_from(rec, name, k) == Some(rec[i].value),
    decreases i - k,
{
    if k < i {
        lemma_field_from_at(rec, name, k + 1, i);
    }
}

/// No entry is named `name`.
pub proof fn lemma_field_absent(rec: Seq<Attribute>, name: Seq<char>)
    requires
        forall|j: int| 0 <= j < rec.len() ==> #[trigger] rec[j].name@ != name,
    ensures
        field(rec, name) is None,
{
    lemma_field_from_absent(rec, name, 0);
}

proof fn lemma_field_from_absent(rec: Seq<Attribute>, name: Seq<char>, k: int)
    requires
        0 <= k,
        forall|j: int| 0 <= j < rec.len() ==> #[trigger] rec[j].name@ != name,
    ensures
        field_from(rec, name, k) is None,
    decreases rec.len() - k,
{
    if k < rec.len() {
        lemma_field_from_absent(rec, name, k + 1);
    }
}

pub open spec fn is_text(v: AttributeValue, t: Seq<char>) -> bool {
    v matches AttributeValue::S(s) && s@ == t
}

pub open spec fn instant_text(t: UtcDateTime) -> Seq<char> {
    rfc3339_text(t.secs as int, t.nanos as int)
}

/// The record of a comment: its id, message and creation time as text.
pub open spec fn encodes_comment(rec: Seq<Attribute>, c: CommentView) -> bool {
    &&& rec.len() == 3
    &&& rec[0].name@ == "id"@ && is_text(rec[0].value, c.id)
    &&& rec[1].name@ == "message"@ && is_text(rec[1].value, c.message)
    &&& rec[2].name@ == "created"@ && is_text(rec[2].value, instant_text(c.created))
}

/// The map of a gate's comments: one entry per comment, named by its id.
pub open spec fn encodes_comments(es: Seq<Attribute>, cs: Seq<CommentView>) -> bool {
    &&& es.len() == cs.len()
    &&& forall|i: int| 0 <= i < es.len() ==> {
        &&& (#[trigger] es[i]).name@ == cs[i].id
        &&& es[i].value matches AttributeValue::M(fs) && encodes_comment(fs@, cs[i])
    }
}

/// The stored record of a gate: partition key `group`, sort key
/// `service#environment`, the key parts, the state's name, the RFC 3339 time
/// of the last update, the comments by id, and the display order in decimal
/// when there is one.
pub open spec fn encodes_gate(rec: Seq<Attribute>, g: GateView) -> bool {
    &&& rec.len() == if g.display_order is Some { 8int } else { 7int }
    &&& rec[0].name@ == "group"@ && is_text(rec[0].value, g.key.group)
    &&& rec[1].name@ == "service_environment"@ && is_text(
        rec[1].value,
        service_environment(g.key.service, g.key.environment),
    )
    &&& rec[2].name@ == "service"@ && is_text(rec[2].value, g.key.service)
    &&& rec[3].name@ == "environment"@ && is_text(rec[3].value, g.key.environment)
    &&& rec[4].name@ == "state"@ && is_text(rec[4].value, state_name(g.state))
    &&& rec[5].name@ == "last_updated"@ && is_text(rec[5].value, instant_text(g.last_updated))
    &&& rec[6].name@ == "comments"@
    &&& (rec[6].value matches AttributeValue::M(es) && encodes_comments(es@, g.comments))
    &&& (g.display_order matches Some(n) ==> rec[7].name@ == "display_order"@ && (rec[7].value matches AttributeValue::N(d) && d@ == decimal_text(n as nat)))
}

fn text_attribute(name: &str, value: String) -> (r: Attribute)
    ensures
        r.name@ == name@,
        is_text(r.value, value@),
{
    Attribute { name: name.to_owned(), value: AttributeValue::S(value) }
}

/// Every timestamp of `g` lies in the range that RFC 3339 writes.
pub open spec fn gate_writable(g: GateView) -> bool {
    g.last_updated.wf() && forall|i: int| 0 <= i < g.comments.len() ==> (#[trigger] g.comments[i]).created.wf()
}

/// Whether `encode_gate` can write `g`.
pub fn is_writable(g: &Gate) -> (r: bool)
    ensures
        r == gate_writable(g@),
{
    if !(crate::types::MIN_UNIX_SECONDS <= g.last_updated.secs && g.last_updated.secs <= crate::types::MAX_UNIX_SECONDS
        && g.last_updated.nanos < crate::types::NANOS_PER_SECOND) {
        return false;
    }
    let mut i: usize = 0;
    while i < g.comments.len()
        invariant
            i <= g.comments@.len(),
            forall|j: int| 0 <= j < i ==> (#[trigger] g@.comments[j]).created.wf(),
        decreases g.comments@.len() - i,
    {
        let t = g.comments[i].created;
        assert(g@.comments[i as int].created == t);
        if !(crate::types::MIN_UNIX_SECONDS <= t.secs && t.secs <= crate::types::MAX_UNIX_SECONDS && t.nanos
            < crate::types::NANOS_PER_SECOND) {
            return false;
        }
        i = i + 1;
    }
    true
}

pub fn encode_comment(c: &Comment) -> (r: Vec<Attribute>)
    requires
        c.created.wf(),
    ensures
        encodes_comment(r@, c@),
{
    let mut r: Vec<Attribute> = Vec::new();
    r.push(text_attribute("id", c.id.clone()));
    r.push(text_attribute("message", c.message.clone()));
    r.push(text_attribute("created", c.created.to_rfc3339()));
    r
}

/// The stored record of a gate.
pub fn encode_gate(g: &Gate) -> (r: Vec<Attribute>)
    requires
        gate_writable(g@),
    ensures
        encodes_gate(r@, g@),
{
    let mut es: Vec<Attribute> = Vec::new();
    let mut i: usize = 0;
    while i < g.comments.len()
        invariant
            i <= g.comments@.len(),
            gate_writable(g@),
            es@.len() == i,
            forall|j: int| 0 <= j < i ==> {
                &&& (#[trigger] es@[j]).name@ == g@.comments[j].id
                &&& es@[j].value matches AttributeValue::M(fs) && encodes_comment(fs@, g@.comments[j])
            },
        decreases g.comments@.len() - i,
    {
        let c = &g.comments[i];
        assert(g@.comments[i as int] == c@);
        es.push(Attribute { name: c.id.clone(), value: AttributeValue::M(encode_comment(c)) });
        i = i + 1;
    }
    let mut r: Vec<Attribute> = Vec::new();
    r.push(text_attribute("group", g.key.group.clone()));
    r.push(
        text_attribute(
            "service_environment",
            get_service_environment(g.key.service.as_str(), g.key.environment.as_str()),
        ),
    );
    r.push(text_attribute("service", g.key.service.clone()));
    r.push(text_attribute("environment", g.key.environment.clone()));
    r.push(text_attribute("state", g.state.as_str().to_owned()));
    r.push(text_attribute("last_updated", g.last_updated.to_rfc3339()));
    r.push(Attribute { name: "comments".to_owned(), value: AttributeValue::M(es) });
    match g.display_order {
        Some(n) => r.push(Attribute { name: "display_order".to_owned(), value: AttributeValue::N(u32_to_decimal(n)) }),
        None => {},
    }
    r
}

/// Every timestamp of `g` is read back by chrono as the instant it was
/// written from.
pub open spec fn instants_read_back(g: GateView) -> bool {
    &&& instant_of(instant_text(g.last_updated)) == Some(g.last_updated)
    &&& forall|i: int| 0 <= i < g.comments.len() ==> instant_of(instant_text((#[trigger] g.comments[i]).created))
        == Some(g.comments[i].created)
}

proof fn lemma_comment_read_back(fs: Seq<Attribute>, c: CommentView)
    requires
        encodes_comment(fs, c),
        instant_of(instant_text(c.created)) == Some(c.created),
    ensures
        decoded_comment(fs) == Some(c),
{
    reveal_strlit("id");
    reveal_strlit("message");
    reveal_strlit("created");
    assert("message"@[0] != "created"@[0]);
    lemma_field_at(fs, "id"@, 0);
    lemma_field_at(fs, "message"@, 1);
    lemma_field_at(fs, "created"@, 2);
}

/// Decoding the record that `encode_gate` writes for `g` gives `g` back, as
/// long as chrono reads each written timestamp back as the same instant.
pub proof fn law_decode_reads_back_encode(rec: Seq<Attribute>, g: GateView)
    requires
        encodes_gate(rec, g),
        instants_read_back(g),
    ensures
        decoded_gate(rec) == Some(g),
{
    reveal_strlit("group");
    reveal_strlit("service_environment");
    reveal_strlit("service");
    reveal_strlit("environment");
    reveal_strlit("state");
    reveal_strlit("last_updated");
    reveal_strlit("comments");
    reveal_strlit("display_order");
    reveal_strlit("open");
    reveal_strlit("closed");
    assert("group"@[0] != "state"@[0]);
    assert("service_environment"@.len() != "service"@.len());
    assert("service_environment"@.len() != "environment"@.len());
    assert("group"@.len() != "service"@.len());
    assert("group"@.len() != "environment"@.len());
    assert("service"@.len() != "environment"@.len());
    assert("group"@.len() == 5 && "service_environment"@.len() == 19 && "service"@.len() == 7);
    assert("environment"@.len() == 11 && "state"@.len() == 5 && "last_updated"@.len() == 12);
    assert("comments"@.len() == 8 && "display_order"@.len() == 13);
    assert forall|j: int| 0 <= j < 6 implies #[trigger] rec[j].name@ != "comments"@ by {
        assert(rec[j].name@.len() != 8);
    }
    assert forall|j: int| 0 <= j < 7 implies #[trigger] rec[j].name@ != "display_order"@ by {
        assert(rec[j].name@.len() != 13);
    }
    assert(rec[1].name@ != "service"@ && rec[0].name@ != "service"@);
    assert(rec[1].name@ != "environment"@ && rec[0].name@ != "environment"@ && rec[2].name@ != "environment"@);
    lemma_field_at(rec, "group"@, 0);
    lemma_field_at(rec, "service"@, 2);
    lemma_field_at(rec, "environment"@, 3);
    lemma_field_at(rec, "state"@, 4);
    lemma_field_at(rec, "last_updated"@, 5);
    lemma_field_at(rec, "comments"@, 6);
    match g.display_order {
        Some(n) => {
            lemma_field_at(rec, "display_order"@, 7);
            crate::datetime::lemma_decimal_round_trip(n as nat);
        },
        None => {
            lemma_field_absent(rec, "display_order"@);
        },
    }
    assert("open"@.len() == 4 && "closed"@.len() == 6);
    assert(state_from_name(state_name(g.state)) == Some(g.state));
    let es = match rec[6].value {
        AttributeValue::M(es) => es@,
        _ => Seq::empty(),
    };
    assert forall|j: int| 0 <= j < es.len() implies (#[trigger] entry_comment(es[j].value)) == Some(g.comments[j]) by {
        let fs = match es[j].value {
            AttributeValue::M(fs) => fs@,
            _ => Seq::empty(),
        };
        assert(instant_of(instant_text(g.comments[j].created)) == Some(g.comments[j].created));
        lemma_comment_read_back(fs, g.comments[j]);
    }
    assert(Seq::new(es.len(), |j: int| entry_comment(es[j].value).unwrap()) =~= g.comments);
}

} // verus!
