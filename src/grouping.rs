use vstd::prelude::*;
use vstd::string::*;

use crate::types::{Gate, GateView};

verus! {

/// `a` comes before `b` in lexicographic order of characters.
pub open spec fn text_less(a: Seq<char>, b: Seq<char>) -> bool {
    exists|k: int|
        0 <= k <= a.len() && k <= b.len() && a.subrange(0, k) == b.subrange(0, k) && ((k == a.len() && k
            < b.len()) || (k < a.len() && k < b.len() && a[k] < b[k]))
}

/// `None` first, then by value.
pub open spec fn order_le(a: Option<u32>, b: Option<u32>) -> bool {
    match (a, b) {
        (None, _) => true,
        (Some(_), None) => false,
        (Some(x), Some(y)) => x <= y,
    }
}

pub enum Comparison {
    Less,
    Equal,
    Greater,
}

/// Compares two texts character by character.
pub fn compare_text(a: &str, b: &str) -> (r: Comparison)
    ensures
        r is Less ==> text_less(a@, b@),
        r is Equal ==> a@ == b@,
        r is Greater ==> text_less(b@, a@),
{
    let n = a.unicode_len();
    let m = b.unicode_len();
    let mut i: usize = 0;
    while i < n && i < m
        invariant
            n == a@.len(),
            m == b@.len(),
            i <= n && i <= m,
            a@.subrange(0, i as int) == b@.subrange(0, i as int),
        decreases n - i,
    {
        let x = a.get_char(i);
        let y = b.get_char(i);
        if x < y {
            assert(text_less(a@, b@)) by {
                assert(a@.subrange(0, i as int) == b@.subrange(0, i as int));
            }
            return Comparison::Less;
        }
        if y < x {
            assert(text_less(b@, a@)) by {
                assert(b@.subrange(0, i as int) == a@.subrange(0, i as int));
            }
            return Comparison::Greater;
        }
        assert(a@.subrange(0, i + 1) =~= a@.subrange(0, i as int).push(x));
        assert(b@.subrange(0, i + 1) =~= b@.subrange(0, i as int).push(y));
        i = i + 1;
    }
    if i == n && i == m {
        assert(a@ =~= a@.subrange(0, i as int));
        assert(b@ =~= b@.subrange(0, i as int));
        Comparison::Equal
    } else if i == n {
        assert(text_less(a@, b@)) by {
            assert(a@.subrange(0, i as int) == b@.subrange(0, i as int));
        }
        Comparison::Less
    } else {
        assert(text_less(b@, a@)) by {
            assert(b@.subrange(0, i as int) == a@.subrange(0, i as int));
        }
        Comparison::Greater
    }
}

/// One environment of a service, with its gate.
#[derive(Debug, PartialEq, Eq)]
pub struct Environment {
    pub name: String,
    pub gate: Gate,
}

/// One service of a group, with its environments.
#[derive(Debug, PartialEq, Eq)]
pub struct Service {
    pub name: String,
    pub environments: Vec<Environment>,
}

/// The gates of one group, by service.
#[derive(Debug, PartialEq, Eq)]
pub struct Group {
    pub name: String,
    pub services: Vec<Service>,
}

/// The gates that some element of `s` holds, by `f`.
pub open spec fn union_of<T>(s: Seq<T>, f: spec_fn(T) -> Set<GateView>) -> Set<GateView> {
    Set::new(|v: GateView| exists|i: int| 0 <= i < s.len() && #[trigger] f(s[i]).contains(v))
}

pub open spec fn env_gates(e: Environment) -> Set<GateView> {
    set![e.gate@]
}

pub open spec fn service_gates(s: Service) -> Set<GateView> {
    union_of(s.environments@, |e: Environment| env_gates(e))
}

pub open spec fn group_gates(g: Group) -> Set<GateView> {
    union_of(g.services@, |s: Service| service_gates(s))
}

/// Every gate held anywhere in the groups.
pub open spec fn all_gates(gs: Seq<Group>) -> Set<GateView> {
    union_of(gs, |g: Group| group_gates(g))
}

/// The gates of a list, as a set.
pub open spec fn gate_set(s: Seq<GateView>) -> Set<GateView> {
    Set::new(|v: GateView| exists|i: int| 0 <= i < s.len() && #[trigger] s[i] == v)
}

pub open spec fn environments_ok(es: Seq<Environment>, group: Seq<char>, service: Seq<char>) -> bool {
    &&& es.len() > 0
    &&& forall|c: int| 0 <= c < es.len() ==> {
        &&& (#[trigger] es[c]).gate@.key.group == group
        &&& es[c].gate@.key.service == service
        &&& es[c].name@ == es[c].gate@.key.environment
    }
    &&& forall|c: int| 0 <= c < es.len() - 1 ==> order_le(#[trigger] es[c].gate@.display_order, es[c + 1].gate@.display_order)
}

pub open spec fn services_ok(ss: Seq<Service>, group: Seq<char>) -> bool {
    &&& ss.len() > 0
    &&& forall|b: int| 0 <= b < ss.len() ==> environments_ok((#[trigger] ss[b]).environments@, group, ss[b].name@)
    &&& forall|b: int| 0 <= b < ss.len() - 1 ==> text_less((#[trigger] ss[b]).name@, ss[b + 1].name@)
}

/// Groups in increasing order of name, each with its services in increasing
/// order of name, each with its environments by display order (none first);
/// every gate sits under its own group, service and environment name.
pub open spec fn groups_ok(gs: Seq<Group>) -> bool {
    &&& forall|a: int| 0 <= a < gs.len() ==> services_ok((#[trigger] gs[a]).services@, gs[a].name@)
    &&& forall|a: int| 0 <= a < gs.len() - 1 ==> text_less((#[trigger] gs[a]).name@, gs[a + 1].name@)
}

proof fn lemma_union_insert<T>(s: Seq<T>, f: spec_fn(T) -> Set<GateView>, i: int, x: T)
    requires
        0 <= i <= s.len(),
    ensures
        union_of(s.insert(i, x), f) == union_of(s, f).union(f(x)),
{
    let t = s.insert(i, x);
    assert forall|v: GateView| union_of(t, f).contains(v) == union_of(s, f).union(f(x)).contains(v) by {
        if union_of(t, f).contains(v) {
            let j = choose|j: int| 0 <= j < t.len() && #[trigger] f(t[j]).contains(v);
            if j < i {
                assert(t[j] == s[j]);
            } else if j > i {
                assert(t[j] == s[j - 1]);
            }
        }
        if union_of(s, f).contains(v) {
            let j = choose|j: int| 0 <= j < s.len() && #[trigger] f(s[j]).contains(v);
            if j < i {
                assert(t[j] == s[j]);
            } else {
                assert(t[j + 1] == s[j]);
            }
        }
        if f(x).contains(v) {
            assert(t[i] == x);
        }
    }
    assert(union_of(t, f) =~= union_of(s, f).union(f(x)));
}

proof fn lemma_union_update<T>(s: Seq<T>, f: spec_fn(T) -> Set<GateView>, i: int, x: T, v0: GateView)
    requires
        0 <= i < s.len(),
        f(x) == f(s[i]).insert(v0),
    ensures
        union_of(s.update(i, x), f) == union_of(s, f).insert(v0),
{
    let t = s.update(i, x);
    assert forall|v: GateView| union_of(t, f).contains(v) == union_of(s, f).insert(v0).contains(v) by {
        if union_of(t, f).contains(v) {
            let j = choose|j: int| 0 <= j < t.len() && #[trigger] f(t[j]).contains(v);
            if j != i {
                assert(t[j] == s[j]);
            }
        }
        if union_of(s, f).contains(v) {
            let j = choose|j: int| 0 <= j < s.len() && #[trigger] f(s[j]).contains(v);
            if j != i {
                assert(t[j] == s[j]);
            } else {
                assert(f(t[i]).contains(v));
            }
        }
        if v == v0 {
            assert(f(t[i]).contains(v));
        }
    }
    assert(union_of(t, f) =~= union_of(s, f).insert(v0));
}

proof fn lemma_single<T>(x: T, f: spec_fn(T) -> Set<GateView>)
    ensures
        union_of(seq![x], f) == f(x),
{
    assert(union_of(seq![x], f) =~= f(x)) by {
        assert forall|v: GateView| f(x).contains(v) implies union_of(seq![x], f).contains(v) by {
            assert(seq![x][0] == x);
        }
    }
}

fn order_at_most(a: Option<u32>, b: Option<u32>) -> (r: bool)
    ensures
        r == order_le(a, b),
{
    match (a, b) {
        (None, _) => true,
        (Some(_), None) => false,
        (Some(x), Some(y)) => x <= y,
    }
}

/// Puts `e` after every environment whose display order is not larger.
fn insert_environment(es: &mut Vec<Environment>, e: Environment, Ghost(group): Ghost<Seq<char>>, Ghost(service): Ghost<Seq<char>>)
    requires
        environments_ok(old(es)@, group, service),
        e.gate@.key.group == group,
        e.gate@.key.service == service,
        e.name@ == e.gate@.key.environment,
    ensures
        environments_ok(final(es)@, group, service),
        union_of(final(es)@, |x: Environment| env_gates(x)) == union_of(old(es)@, |x: Environment| env_gates(x)).insert(e.gate@),
{
    let mut r: usize = 0;
    while r < es.len() && order_at_most(es[r].gate.display_order, e.gate.display_order)
        invariant
            r <= es@.len(),
            forall|c: int| 0 <= c < r ==> order_le(#[trigger] es@[c].gate@.display_order, e.gate@.display_order),
        decreases es@.len() - r,
    {
        r = r + 1;
    }
    let ghost before = es@;
    let ghost v = e.gate@;
    proof {
        lemma_union_insert(before, |x: Environment| env_gates(x), r as int, e);
        assert(env_gates(e) == set![v]);
        assert(union_of(before, |x: Environment| env_gates(x)).union(set![v]) =~= union_of(before, |x: Environment| env_gates(x)).insert(v));
    }
    es.insert(r, e);
    assert forall|c: int| 0 <= c < es@.len() - 1 implies order_le(#[trigger] es@[c].gate@.display_order, es@[c + 1].gate@.display_order) by {
        if c + 1 < r {
            assert(es@[c] == before[c] && es@[c + 1] == before[c + 1]);
        } else if c + 1 == r {
            assert(es@[c] == before[c]);
        } else if c == r {
            assert(es@[c + 1] == before[c]);
        } else {
            assert(es@[c] == before[c - 1] && es@[c + 1] == before[c]);
        }
    }
    assert forall|c: int| 0 <= c < es@.len() implies {
        &&& (#[trigger] es@[c]).gate@.key.group == group
        &&& es@[c].gate@.key.service == service
        &&& es@[c].name@ == es@[c].gate@.key.environment
    } by {
        if c < r {
            assert(es@[c] == before[c]);
        } else if c > r {
            assert(es@[c] == before[c - 1]);
        }
    }
}

/// Where `name` belongs among services sorted by name: the index of the
/// service with that name (`true`), or the index to insert it at (`false`).
fn locate_service(ss: &Vec<Service>, name: &str) -> (r: (usize, bool))
    ensures
        r.0 <= ss@.len(),
        r.1 ==> r.0 < ss@.len() && ss@[r.0 as int].name@ == name@,
        forall|c: int| 0 <= c < r.0 ==> text_less((#[trigger] ss@[c]).name@, name@),
        !r.1 && r.0 < ss@.len() ==> text_less(name@, ss@[r.0 as int].name@),
{
    let mut p: usize = 0;
    while p < ss.len()
        invariant
            p <= ss@.len(),
            forall|c: int| 0 <= c < p ==> text_less((#[trigger] ss@[c]).name@, name@),
        decreases ss@.len() - p,
    {
        match compare_text(ss[p].name.as_str(), name) {
            Comparison::Less => {},
            Comparison::Equal => return (p, true),
            Comparison::Greater => return (p, false),
        }
        p = p + 1;
    }
    (p, false)
}

fn locate_group(gs: &Vec<Group>, name: &str) -> (r: (usize, bool))
    ensures
        r.0 <= gs@.len(),
        r.1 ==> r.0 < gs@.len() && gs@[r.0 as int].name@ == name@,
        forall|c: int| 0 <= c < r.0 ==> text_less((#[trigger] gs@[c]).name@, name@),
        !r.1 && r.0 < gs@.len() ==> text_less(name@, gs@[r.0 as int].name@),
{
    let mut p: usize = 0;
    while p < gs.len()
        invariant
            p <= gs@.len(),
            forall|c: int| 0 <= c < p ==> text_less((#[trigger] gs@[c]).name@, name@),
        decreases gs@.len() - p,
    {
        match compare_text(gs[p].name.as_str(), name) {
            Comparison::Less => {},
            Comparison::Equal => return (p, true),
            Comparison::Greater => return (p, false),
        }
        p = p + 1;
    }
    (p, false)
}

fn new_service(e: Environment) -> (r: Service)
    requires
        e.name@ == e.gate@.key.environment,
    ensures
        r.name@ == e.gate@.key.service,
        environments_ok(r.environments@, e.gate@.key.group, r.name@),
        service_gates(r) == set![e.gate@],
{
    let name = e.gate.key.service.clone();
    let environments = vec![e];
    proof {
        lemma_single(environments@[0], |x: Environment| env_gates(x));
        assert(environments@ =~= seq![environments@[0]]);
    }
    Service { name, environments }
}

fn insert_into_services(ss: &mut Vec<Service>, e: Environment, Ghost(group): Ghost<Seq<char>>)
    requires
        services_ok(old(ss)@, group),
        e.gate@.key.group == group,
        e.name@ == e.gate@.key.environment,
    ensures
        services_ok(final(ss)@, group),
        union_of(final(ss)@, |x: Service| service_gates(x)) == union_of(old(ss)@, |x: Service| service_gates(x)).insert(e.gate@),
{
    let ghost v = e.gate@;
    let ghost before = ss@;
    let (p, found) = locate_service(ss, e.gate.key.service.as_str());
    if found {
        let mut s = ss.remove(p);
        assert(s == before[p as int]);
        insert_environment(&mut s.environments, e, Ghost(group), Ghost(s.name@));
        ss.insert(p, s);
        assert(ss@ =~= before.update(p as int, s));
        proof {
            lemma_union_update(before, |x: Service| service_gates(x), p as int, s, v);
        }
        assert forall|b: int| 0 <= b < ss@.len() - 1 implies text_less((#[trigger] ss@[b]).name@, ss@[b + 1].name@) by {
            assert(ss@[b].name@ == before[b].name@ && ss@[b + 1].name@ == before[b + 1].name@);
        }
        assert forall|b: int| 0 <= b < ss@.len() implies environments_ok((#[trigger] ss@[b]).environments@, group, ss@[b].name@) by {
            if b != p {
                assert(ss@[b] == before[b]);
            }
        }
    } else {
        let s = new_service(e);
        proof {
            lemma_union_insert(before, |x: Service| service_gates(x), p as int, s);
            assert(union_of(before, |x: Service| service_gates(x)).union(set![v]) =~= union_of(before, |x: Service| service_gates(x)).insert(v));
        }
        ss.insert(p, s);
        assert forall|b: int| 0 <= b < ss@.len() - 1 implies text_less((#[trigger] ss@[b]).name@, ss@[b + 1].name@) by {
            if b + 1 < p {
                assert(ss@[b] == before[b] && ss@[b + 1] == before[b + 1]);
            } else if b + 1 == p {
                assert(ss@[b] == before[b]);
            } else if b == p {
                assert(ss@[b + 1] == before[b]);
            } else {
                assert(ss@[b] == before[b - 1] && ss@[b + 1] == before[b]);
            }
        }
        assert forall|b: int| 0 <= b < ss@.len() implies environments_ok((#[trigger] ss@[b]).environments@, group, ss@[b].name@) by {
            if b < p {
                assert(ss@[b] == before[b]);
            } else if b > p {
                assert(ss@[b] == before[b - 1]);
            }
        }
    }
}

fn insert_into_groups(gs: &mut Vec<Group>, e: Environment)
    requires
        groups_ok(old(gs)@),
        e.name@ == e.gate@.key.environment,
    ensures
        groups_ok(final(gs)@),
        all_gates(final(gs)@) == all_gates(old(gs)@).insert(e.gate@),
{
    let ghost v = e.gate@;
    let ghost before = gs@;
    let (p, found) = locate_group(gs, e.gate.key.group.as_str());
    if found {
        let mut g = gs.remove(p);
        assert(g == before[p as int]);
        insert_into_services(&mut g.services, e, Ghost(g.name@));
        gs.insert(p, g);
        assert(gs@ =~= before.update(p as int, g));
        proof {
            lemma_union_update(before, |x: Group| group_gates(x), p as int, g, v);
        }
        assert forall|a: int| 0 <= a < gs@.len() - 1 implies text_less((#[trigger] gs@[a]).name@, gs@[a + 1].name@) by {
            assert(gs@[a].name@ == before[a].name@ && gs@[a + 1].name@ == before[a + 1].name@);
        }
        assert forall|a: int| 0 <= a < gs@.len() implies services_ok((#[trigger] gs@[a]).services@, gs@[a].name@) by {
            if a != p {
                assert(gs@[a] == before[a]);
            }
        }
    } else {
        let name = e.gate.key.group.clone();
        let s = new_service(e);
        let services = vec![s];
        proof {
            lemma_single(services@[0], |x: Service| service_gates(x));
            assert(services@ =~= seq![services@[0]]);
        }
        let g = Group { name, services };
        assert(group_gates(g) == set![v]);
        proof {
            lemma_union_insert(before, |x: Group| group_gates(x), p as int, g);
            assert(union_of(before, |x: Group| group_gates(x)).union(set![v]) =~= union_of(before, |x: Group| group_gates(x)).insert(v));
        }
        gs.insert(p, g);
        assert forall|a: int| 0 <= a < gs@.len() - 1 implies text_less((#[trigger] gs@[a]).name@, gs@[a + 1].name@) by {
            if a + 1 < p {
                assert(gs@[a] == before[a] && gs@[a + 1] == before[a + 1]);
            } else if a + 1 == p {
                assert(gs@[a] == before[a]);
            } else if a == p {
                assert(gs@[a + 1] == before[a]);
            } else {
                assert(gs@[a] == before[a - 1] && gs@[a + 1] == before[a]);
            }
        }
        assert forall|a: int| 0 <= a < gs@.len() implies services_ok((#[trigger] gs@[a]).services@, gs@[a].name@) by {
            if a < p {
                assert(gs@[a] == before[a]);
            } else if a > p {
                assert(gs@[a] == before[a - 1]);
            } else {
                assert(gs@[a].services@.len() == 1);
            }
        }
    }
}

/// Arranges gates for listing: by group name, then by service name, then by
/// display order (gates without one first, ties in input order). Holds every
/// input gate and nothing else.
pub fn ordered_by_group(gates: Vec<Gate>) -> (r: Vec<Group>)
    ensures
        groups_ok(r@),
        all_gates(r@) == gate_set(crate::storage::gate_views(gates@)),
{
    let ghost views = crate::storage::gate_views(gates@);
    let mut groups: Vec<Group> = Vec::new();
    let mut i: usize = 0;
    assert(all_gates(groups@) =~= gate_set(views.subrange(0, 0)));
    while i < gates.len()
        invariant
            i <= gates@.len(),
            views == crate::storage::gate_views(gates@),
            groups_ok(groups@),
            all_gates(groups@) == gate_set(views.subrange(0, i as int)),
        decreases gates@.len() - i,
    {
        let gate = gates[i].duplicate();
        let e = Environment { name: gate.key.environment.clone(), gate };
        insert_into_groups(&mut groups, e);
        assert(gate_set(views.subrange(0, i + 1)) =~= gate_set(views.subrange(0, i as int)).insert(views[i as int])) by {
            assert forall|x: GateView| gate_set(views.subrange(0, i + 1)).contains(x) implies gate_set(views.subrange(0, i as int)).insert(views[i as int]).contains(x) by {
                let j = choose|j: int| 0 <= j < i + 1 && #[trigger] views.subrange(0, i + 1)[j] == x;
                if j < i {
                    assert(views.subrange(0, i as int)[j] == x);
                }
            }
            assert forall|x: GateView| gate_set(views.subrange(0, i as int)).insert(views[i as int]).contains(x) implies gate_set(views.subrange(0, i + 1)).contains(x) by {
                if x == views[i as int] {
                    assert(views.subrange(0, i + 1)[i as int] == x);
                } else {
                    let j = choose|j: int| 0 <= j < i && #[trigger] views.subrange(0, i as int)[j] == x;
                    assert(views.subrange(0, i + 1)[j] == x);
                }
            }
        }
        i = i + 1;
    }
    assert(views.subrange(0, i as int) =~= views);
    groups
}

proof fn lemma_text_less_transitive(a: Seq<char>, b: Seq<char>, c: Seq<char>)
    requires
        text_less(a, b),
        text_less(b, c),
    ensures
        text_less(a, c),
{
    let k1 = choose|k: int|
        0 <= k <= a.len() && k <= b.len() && a.subrange(0, k) == b.subrange(0, k) && ((k == a.len() && k
            < b.len()) || (k < a.len() && k < b.len() && a[k] < b[k]));
    let k2 = choose|k: int|
        0 <= k <= b.len() && k <= c.len() && b.subrange(0, k) == c.subrange(0, k) && ((k == b.len() && k
            < c.len()) || (k < b.len() && k < c.len() && b[k] < c[k]));
    let k = if k1 <= k2 { k1 } else { k2 };
    assert forall|i: int| 0 <= i < k implies a[i] == c[i] by {
        assert(a.subrange(0, k1)[i] == b.subrange(0, k1)[i]);
        assert(b.subrange(0, k2)[i] == c.subrange(0, k2)[i]);
    }
    assert(a.subrange(0, k) =~= c.subrange(0, k));
    if k1 < k2 {
        if k1 < a.len() {
            assert(b.subrange(0, k2)[k1] == c.subrange(0, k2)[k1]);
        }
    } else if k2 < k1 {
        assert(a.subrange(0, k1)[k2] == b.subrange(0, k1)[k2]);
    }
}

/// Adjacent order is order between any two positions.
proof fn lemma_sorted_names(names: Seq<Seq<char>>)
    requires
        forall|i: int| 0 <= i < names.len() - 1 ==> text_less(#[trigger] names[i], names[i + 1]),
    ensures
        forall|i: int, j: int| 0 <= i < j < names.len() ==> text_less(#[trigger] names[i], #[trigger] names[j]),
    decreases names.len(),
{
    if names.len() > 1 {
        let front = names.drop_last();
        assert forall|i: int| 0 <= i < front.len() - 1 implies text_less(#[trigger] front[i], front[i + 1]) by {
            assert(front[i] == names[i] && front[i + 1] == names[i + 1]);
        }
        lemma_sorted_names(front);
        assert forall|i: int, j: int| 0 <= i < j < names.len() implies text_less(#[trigger] names[i], #[trigger] names[j]) by {
            if j < names.len() - 1 {
                assert(front[i] == names[i] && front[j] == names[j]);
            } else if i < j - 1 {
                assert(front[i] == names[i] && front[j - 1] == names[j - 1]);
                assert(text_less(names[j - 1], names[j]));
                lemma_text_less_transitive(names[i], names[j - 1], names[j]);
            }
        }
    }
}

proof fn lemma_text_less_irreflexive(a: Seq<char>)
    ensures
        !text_less(a, a),
{
}

/// In well-formed groups every two groups have different names, in
/// increasing order, and so do every two services of one group.
pub proof fn law_names_strictly_increase(gs: Seq<Group>)
    requires
        groups_ok(gs),
    ensures
        forall|a: int, b: int| 0 <= a < b < gs.len() ==> text_less(#[trigger] gs[a].name@, #[trigger] gs[b].name@),
        forall|a: int, b: int| 0 <= a < b < gs.len() ==> gs[a].name@ != gs[b].name@,
        forall|g: int, a: int, b: int|
            0 <= g < gs.len() && 0 <= a < b < gs[g].services@.len() ==> (#[trigger] gs[g].services@[a]).name@
                != (#[trigger] gs[g].services@[b]).name@,
{
    let names = Seq::new(gs.len(), |a: int| gs[a].name@);
    assert forall|i: int| 0 <= i < names.len() - 1 implies text_less(#[trigger] names[i], names[i + 1]) by {
        assert(text_less(gs[i].name@, gs[i + 1].name@));
    }
    lemma_sorted_names(names);
    assert forall|a: int, b: int| 0 <= a < b < gs.len() implies text_less(#[trigger] gs[a].name@, #[trigger] gs[b].name@) by {
        assert(text_less(names[a], names[b]));
    }
    assert forall|a: int, b: int| 0 <= a < b < gs.len() implies gs[a].name@ != gs[b].name@ by {
        assert(text_less(names[a], names[b]));
        lemma_text_less_irreflexive(names[a]);
    }
    assert forall|g: int, a: int, b: int|
        0 <= g < gs.len() && 0 <= a < b < gs[g].services@.len() implies (#[trigger] gs[g].services@[a]).name@
            != (#[trigger] gs[g].services@[b]).name@ by {
        let ss = gs[g].services@;
        assert(services_ok(ss, gs[g].name@));
        let sn = Seq::new(ss.len(), |x: int| ss[x].name@);
        assert forall|i: int| 0 <= i < sn.len() - 1 implies text_less(#[trigger] sn[i], sn[i + 1]) by {
            assert(text_less(ss[i].name@, ss[i + 1].name@));
        }
        lemma_sorted_names(sn);
        assert(text_less(sn[a], sn[b]));
        lemma_text_less_irreflexive(sn[a]);
    }
}

} // verus!
