//! The application list: search filter and lookup by identifier or name.

use crate::text::{
    contains, decimal, decimal_string, lower_of, lowercase, parse_u64, parse_u64_spec,
    seq_contains, str_eq, trim, trim_of,
};
use vstd::prelude::*;

verus! {

/// One monitored application, as listed by the remote service.
#[derive(Clone, Debug)]
pub struct Application {
    pub id: u64,
    pub name: String,
    pub last_reported_at: String,
}

/// The application matches a query as typed: the query is empty, or the
/// lower-cased name contains the lower-cased query, or the decimal
/// identifier contains the query.
pub open spec fn app_matches(app: Application, q: Seq<char>) -> bool {
    q.len() == 0 || seq_contains(lower_of(app.name@), lower_of(q)) || seq_contains(
        decimal(app.id as nat),
        q,
    )
}

/// Indices, in increasing order, of the first `n` applications that match `q`.
pub open spec fn matching_prefix(apps: Seq<Application>, q: Seq<char>, n: nat) -> Seq<usize>
    decreases n,
{
    if n == 0 {
        Seq::empty()
    } else {
        let prev = matching_prefix(apps, q, (n - 1) as nat);
        if app_matches(apps[n - 1], q) {
            prev.push((n - 1) as usize)
        } else {
            prev
        }
    }
}

/// Indices, in increasing order, of the applications that match `q`.
pub open spec fn matching_indices(apps: Seq<Application>, q: Seq<char>) -> Seq<usize> {
    matching_prefix(apps, q, apps.len())
}

/// The sequence `0, 1, ..., n - 1`.
pub open spec fn index_range(n: nat) -> Seq<usize> {
    Seq::new(n, |i: int| i as usize)
}

proof fn lemma_matching_prefix_facts(apps: Seq<Application>, q: Seq<char>, n: nat)
    requires
        n <= apps.len(),
        apps.len() <= usize::MAX,
    ensures
        forall|k: int|
            0 <= k < matching_prefix(apps, q, n).len() ==> #[trigger] matching_prefix(
                apps,
                q,
                n,
            )[k] < n,
        forall|a: int, b: int|
            0 <= a < b < matching_prefix(apps, q, n).len() ==> matching_prefix(apps, q, n)[a]
                < matching_prefix(apps, q, n)[b],
        forall|i: int|
            0 <= i < n ==> (matching_prefix(apps, q, n).contains(i as usize) <==> app_matches(
                #[trigger] apps[i],
                q,
            )),
        q.len() == 0 ==> matching_prefix(apps, q, n) == index_range(n),
    decreases n,
{
    if n > 0 {
        let m = (n - 1) as nat;
        lemma_matching_prefix_facts(apps, q, m);
        let prev = matching_prefix(apps, q, m);
        if q.len() == 0 {
            assert(app_matches(apps[m as int], q));
            assert(matching_prefix(apps, q, n) =~= index_range(n));
        }
        assert forall|i: int|
            0 <= i < n implies (matching_prefix(apps, q, n).contains(i as usize) <==> app_matches(
            #[trigger] apps[i],
            q,
        )) by {
            if i < m {
                if app_matches(apps[m as int], q) {
                    let cur = prev.push(m as usize);
                    if cur.contains(i as usize) {
                        let k = choose|k: int| 0 <= k < cur.len() && cur[k] == i as usize;
                        if k < prev.len() {
                            assert(prev.contains(i as usize));
                        }
                    }
                    if prev.contains(i as usize) {
                        let k = choose|k: int| 0 <= k < prev.len() && prev[k] == i as usize;
                        assert(cur[k] == i as usize);
                    }
                }
            } else {
                if app_matches(apps[m as int], q) {
                    assert(prev.push(m as usize)[prev.len() as int] == m as usize);
                } else {
                    if prev.contains(i as usize) {
                        let k = choose|k: int| 0 <= k < prev.len() && prev[k] == i as usize;
                        assert(prev[k] < m);
                    }
                }
            }
        }
    }
}

/// What the search filter returns: for a non-empty query exactly the indices
/// of the applications whose lower-cased name contains the lower-cased query
/// or whose decimal identifier contains the query, each once and in
/// increasing order; for an empty query every index in the order received.
pub proof fn lemma_filter_exact(apps: Seq<Application>, q: Seq<char>)
    requires
        apps.len() <= usize::MAX,
    ensures
        forall|i: int|
            0 <= i < apps.len() ==> (matching_indices(apps, q).contains(i as usize)
                <==> #[trigger] app_matches(apps[i], q)),
        forall|x: usize| matching_indices(apps, q).contains(x) ==> x < apps.len(),
        forall|a: int, b: int|
            0 <= a < b < matching_indices(apps, q).len() ==> matching_indices(apps, q)[a]
                < matching_indices(apps, q)[b],
        q.len() == 0 ==> matching_indices(apps, q) == index_range(apps.len()),
{
    lemma_matching_prefix_facts(apps, q, apps.len());
    assert forall|x: usize| matching_indices(apps, q).contains(x) implies x < apps.len() by {
        let k = choose|k: int|
            0 <= k < matching_indices(apps, q).len() && matching_indices(apps, q)[k] == x;
        assert(matching_prefix(apps, q, apps.len())[k] < apps.len());
    }
}

/// Indices into `apps` of the applications that match `query`: by name
/// ignoring case, or by decimal identifier; an empty query keeps every
/// application.
pub fn filtered_app_indices(apps: &Vec<Application>, query: &str) -> (r: Vec<usize>)
    ensures
        r@ == matching_indices(apps@, query@),
{
    let q = lowercase(query);
    let mut out: Vec<usize> = Vec::new();
    if query.is_empty() {
        proof {
            assert(apps@.len() == apps.len());
            lemma_matching_prefix_facts(apps@, query@, apps@.len());
        }
        let mut i: usize = 0;
        while i < apps.len()
            invariant
                i <= apps@.len(),
                out@ == index_range(i as nat),
            decreases apps@.len() - i,
        {
            out.push(i);
            i = i + 1;
            proof {
                assert(out@ =~= index_range(i as nat));
            }
        }
        return out;
    }
    let mut i: usize = 0;
    while i < apps.len()
        invariant
            i <= apps@.len(),
            q@ == lower_of(query@),
            query@.len() > 0,
            out@ == matching_prefix(apps@, query@, i as nat),
        decreases apps@.len() - i,
    {
        let name = lowercase(apps[i].name.as_str());
        let id = decimal_string(apps[i].id);
        let hit = contains(name.as_str(), q.as_str()) || contains(id.as_str(), query);
        if hit {
            out.push(i);
        }
        i = i + 1;
    }
    out
}

/// The position of the first application that `pred` accepts.
pub open spec fn first_with(apps: Seq<Application>, pred: spec_fn(Application) -> bool) -> Option<
    int,
> {
    if exists|i: int| 0 <= i < apps.len() && pred(apps[i]) {
        Some(choose|i: int| 0 <= i < apps.len() && pred(apps[i]) && forall|j: int| 0 <= j < i ==> !pred(apps[j]))
    } else {
        None
    }
}

/// The application that a command-line argument names: its identifier when
/// the trimmed argument is a number, else its name ignoring case.
pub open spec fn names_app(arg: Seq<char>, app: Application) -> bool {
    let t = trim_of(arg);
    match parse_u64_spec(t) {
        Some(id) => app.id == id,
        None => lower_of(app.name@) == lower_of(t),
    }
}

/// Resolves a command-line argument (identifier or name, case-insensitive)
/// to the index, identifier and name of the first application it names.
/// A blank argument names none.
pub fn resolve_app(apps: &Vec<Application>, app_arg: &str) -> (r: Option<(usize, u64, String)>)
    ensures
        trim_of(app_arg@).len() == 0 ==> r is None,
        trim_of(app_arg@).len() > 0 ==> match r {
            Some((i, id, name)) => {
                &&& i < apps@.len()
                &&& names_app(app_arg@, apps@[i as int])
                &&& forall|j: int| 0 <= j < i ==> !names_app(app_arg@, #[trigger] apps@[j])
                &&& id == apps@[i as int].id
                &&& name@ == apps@[i as int].name@
            },
            None => forall|j: int|
                0 <= j < apps@.len() ==> !names_app(app_arg@, #[trigger] apps@[j]),
        },
{
    let t = trim(app_arg);
    if t.is_empty() {
        return None;
    }
    assert(t@.len() > 0);
    let parsed = parse_u64(t);
    let lower = lowercase(t);
    let mut i: usize = 0;
    while i < apps.len()
        invariant
            i <= apps@.len(),
            t@ == trim_of(app_arg@),
            t@.len() > 0,
            parsed == parse_u64_spec(t@),
            lower@ == lower_of(t@),
            forall|j: int| 0 <= j < i ==> !names_app(app_arg@, #[trigger] apps@[j]),
        decreases apps@.len() - i,
    {
        let hit = match parsed {
            Some(id) => apps[i].id == id,
            None => {
                let n = lowercase(apps[i].name.as_str());
                str_eq(n.as_str(), lower.as_str())
            },
        };
        if hit {
            return Some((i, apps[i].id, apps[i].name.clone()));
        }
        i = i + 1;
    }
    None
}

} // verus!
