//! Visit aggregation: the total number of visits for an identifier, and
//! grouped counts by IP, referrer and user agent.

use vstd::prelude::*;

use crate::model::{visits_with_id, VisitModel};
use crate::store::{visits_model, LinkStore, VisitRecord};

verus! {

/// A dimension of the visit log to group by: a closed enumeration, one
/// variant per grouped column.
#[derive(Debug, Clone, Copy, PartialEq, Eq)]
pub enum Dimension {
    /// Group by client IP.
    Ip,
    /// Group by referrer.
    Referrer,
    /// Group by user agent.
    UserAgent,
}

/// The value a visit carries in a dimension, when it carries one.
pub open spec fn dim_value(v: VisitModel, d: Dimension) -> Option<Seq<char>> {
    match d {
        Dimension::Ip => v.ip,
        Dimension::Referrer => v.referrer,
        Dimension::UserAgent => v.user_agent,
    }
}

/// The present values of one dimension, in visit order: a visit without a
/// value there contributes nothing to the grouping.
pub open spec fn dim_values(vs: Seq<VisitModel>, d: Dimension) -> Seq<Seq<char>>
    decreases vs.len(),
{
    if vs.len() == 0 {
        Seq::empty()
    } else {
        match dim_value(vs.last(), d) {
            Some(x) => dim_values(vs.drop_last(), d).push(x),
            None => dim_values(vs.drop_last(), d),
        }
    }
}

/// Appending one visit appends its dimension value, when present.
pub proof fn lemma_dim_values_push(vs: Seq<VisitModel>, d: Dimension, v: VisitModel)
    ensures
        dim_values(vs.push(v), d) == (match dim_value(v, d) {
            Some(x) => dim_values(vs, d).push(x),
            None => dim_values(vs, d),
        }),
{
    assert(vs.push(v).drop_last() =~= vs);
    assert(vs.push(v).last() == v);
}

/// How many times a value occurs in a sequence of values.
pub open spec fn occurrences(s: Seq<Seq<char>>, x: Seq<char>) -> int
    decreases s.len(),
{
    if s.len() == 0 {
        0
    } else {
        occurrences(s.drop_last(), x) + if s.last() == x {
            1int
        } else {
            0int
        }
    }
}

/// Appending a value raises its own count by one and no other.
pub proof fn lemma_occurrences_push(s: Seq<Seq<char>>, x: Seq<char>, y: Seq<char>)
    ensures
        occurrences(s.push(y), x) == occurrences(s, x) + if y == x {
            1int
        } else {
            0int
        },
{
    assert(s.push(y).drop_last() =~= s);
    assert(s.push(y).last() == y);
}

/// A count never exceeds the sequence's length.
pub proof fn lemma_occurrences_bound(s: Seq<Seq<char>>, x: Seq<char>)
    ensures
        0 <= occurrences(s, x) <= s.len(),
    decreases s.len(),
{
    if s.len() > 0 {
        lemma_occurrences_bound(s.drop_last(), x);
    }
}

/// A value that stands somewhere in the sequence occurs at least once.
pub proof fn lemma_occurrences_present(s: Seq<Seq<char>>, x: Seq<char>, i: int)
    requires
        0 <= i < s.len(),
        s[i] == x,
    ensures
        occurrences(s, x) >= 1,
    decreases s.len(),
{
    if i == s.len() - 1 {
        lemma_occurrences_bound(s.drop_last(), x);
    } else {
        lemma_occurrences_present(s.drop_last(), x, i);
    }
}

/// A correct grouping table for a sequence of values: keys are distinct,
/// each key's count is exactly its number of occurrences and is positive,
/// and every occurring value has a key.
pub open spec fn counts_table_ok(vals: Seq<Seq<char>>, table: Seq<(Seq<char>, int)>) -> bool {
    &&& forall|i: int, j: int|
        0 <= i < j < table.len() ==> (#[trigger] table[i]).0 != (#[trigger] table[j]).0
    &&& forall|i: int|
        0 <= i < table.len() ==> (#[trigger] table[i]).1 == occurrences(vals, table[i].0)
            && table[i].1 >= 1
    &&& forall|x: Seq<char>|
        #[trigger] vals.contains(x) ==> exists|i: int|
            0 <= i < table.len() && (#[trigger] table[i]).0 == x
}

/// A sequence of strings, as the contracts see it.
pub open spec fn string_views(s: Seq<String>) -> Seq<Seq<char>> {
    s.map_values(|x: String| x@)
}

/// A grouping table, as the contracts see it.
pub open spec fn table_model(t: Seq<(String, usize)>) -> Seq<(Seq<char>, int)> {
    t.map_values(|p: (String, usize)| (p.0@, p.1 as int))
}

/// Collects the present values of one dimension, in visit order.
fn dimension_values(records: &Vec<VisitRecord>, d: Dimension) -> (vals: Vec<String>)
    ensures
        string_views(vals@) == dim_values(visits_model(records@), d),
{
    let n = records.len();
    let mut vals: Vec<String> = Vec::new();
    proof {
        assert(string_views(vals@) =~= Seq::<Seq<char>>::empty());
        assert(visits_model(records@).take(0) =~= Seq::<VisitModel>::empty());
    }
    let mut i: usize = 0;
    while i < n
        invariant
            i <= n,
            n == records@.len(),
            n == visits_model(records@).len(),
            string_views(vals@) == dim_values(visits_model(records@).take(i as int), d),
        decreases n - i,
    {
        proof {
            assert(visits_model(records@).take(i + 1) =~= visits_model(records@).take(
                i as int,
            ).push(visits_model(records@)[i as int]));
            lemma_dim_values_push(
                visits_model(records@).take(i as int),
                d,
                visits_model(records@)[i as int],
            );
            assert(visits_model(records@)[i as int] == records@[i as int].model());
        }
        let field = match d {
            Dimension::Ip => &records[i].ip,
            Dimension::Referrer => &records[i].referrer,
            Dimension::UserAgent => &records[i].user_agent,
        };
        match field {
            Some(s) => {
                let sc = s.clone();
                proof {
                    assert(string_views(vals@.push(sc)) =~= string_views(vals@).push(sc@));
                }
                vals.push(sc);
            },
            None => {},
        }
        i = i + 1;
    }
    proof {
        assert(visits_model(records@).take(n as int) =~= visits_model(records@));
    }
    vals
}

/// Counts how often a value occurs.
fn count_value(vals: &Vec<String>, x: &String) -> (c: usize)
    ensures
        c as int == occurrences(string_views(vals@), x@),
{
    let n = vals.len();
    let mut c: usize = 0;
    proof {
        assert(string_views(vals@).take(0) =~= Seq::<Seq<char>>::empty());
    }
    let mut i: usize = 0;
    while i < n
        invariant
            i <= n,
            n == vals@.len(),
            n == string_views(vals@).len(),
            c as int == occurrences(string_views(vals@).take(i as int), x@),
        decreases n - i,
    {
        proof {
            assert(string_views(vals@).take(i + 1) =~= string_views(vals@).take(i as int).push(
                string_views(vals@)[i as int],
            ));
            lemma_occurrences_push(
                string_views(vals@).take(i as int),
                x@,
                string_views(vals@)[i as int],
            );
            lemma_occurrences_bound(string_views(vals@).take(i as int), x@);
        }
        if vals[i] == *x {
            c = c + 1;
        }
        i = i + 1;
    }
    proof {
        assert(string_views(vals@).take(n as int) =~= string_views(vals@));
    }
    c
}

/// Whether the table already has an entry under this key.
fn has_key(table: &Vec<(String, usize)>, x: &String) -> (found: bool)
    ensures
        found == exists|i: int| 0 <= i < table@.len() && (#[trigger] table@[i]).0@ == x@,
{
    let n = table.len();
    let mut i: usize = 0;
    while i < n
        invariant
            i <= n,
            n == table@.len(),
            forall|k: int| 0 <= k < i ==> (#[trigger] table@[k]).0@ != x@,
        decreases n - i,
    {
        if table[i].0 == *x {
            return true;
        }
        i = i + 1;
    }
    false
}

/// Groups the present values of one dimension by exact string equality:
/// each occurring value appears once, in order of first appearance, with
/// the number of visits carrying it.
pub fn grouped_counts(records: &Vec<VisitRecord>, d: Dimension) -> (table: Vec<(String, usize)>)
    ensures
        counts_table_ok(dim_values(visits_model(records@), d), table_model(table@)),
{
    let vals = dimension_values(records, d);
    let n = vals.len();
    let mut table: Vec<(String, usize)> = Vec::new();
    proof {
        assert(table_model(table@) =~= Seq::<(Seq<char>, int)>::empty());
    }
    let mut i: usize = 0;
    while i < n
        invariant
            i <= n,
            n == vals@.len(),
            n == string_views(vals@).len(),
            string_views(vals@) == dim_values(visits_model(records@), d),
            forall|k: int, l: int|
                0 <= k < l < table_model(table@).len() ==> (#[trigger] table_model(table@)[k]).0
                    != (#[trigger] table_model(table@)[l]).0,
            forall|k: int|
                0 <= k < table_model(table@).len() ==> (#[trigger] table_model(table@)[k]).1
                    == occurrences(string_views(vals@), table_model(table@)[k].0)
                    && table_model(table@)[k].1 >= 1,
            forall|x: Seq<char>|
                #[trigger] string_views(vals@).take(i as int).contains(x) ==> exists|k: int|
                    0 <= k < table_model(table@).len() && (#[trigger] table_model(table@)[k]).0
                        == x,
        decreases n - i,
    {
        let ghost tbl0 = table@;
        let ghost t0 = table_model(table@);
        let key = &vals[i];
        let found = has_key(&table, key);
        proof {
            assert(string_views(vals@)[i as int] == vals@[i as int]@);
        }
        if !found {
            let c = count_value(&vals, key);
            proof {
                lemma_occurrences_present(string_views(vals@), key@, i as int);
            }
            let entry = (key.clone(), c);
            proof {
                assert(table_model(table@.push(entry)) =~= t0.push((entry.0@, entry.1 as int)));
            }
            table.push(entry);
        }
        proof {
            let t = table_model(table@);
            assert forall|k: int| 0 <= k < t0.len() implies #[trigger] t[k] == t0[k] by {
                assert(t0[k] == (tbl0[k].0@, tbl0[k].1 as int));
            }
            assert(exists|k: int| 0 <= k < t.len() && (#[trigger] t[k]).0 == key@) by {
                if found {
                    let k = choose|k: int|
                        0 <= k < tbl0.len() && (#[trigger] tbl0[k]).0@ == key@;
                    assert(t0[k] == (tbl0[k].0@, tbl0[k].1 as int));
                    assert(t[k] == t0[k]);
                    assert(0 <= k < t.len() && t[k].0 == key@);
                } else {
                    assert(0 <= t.len() - 1 < t.len() && t[t.len() - 1].0 == key@);
                }
            }
            let prefix = string_views(vals@).take(i as int);
            let prefix1 = string_views(vals@).take(i + 1);
            assert(prefix1 =~= prefix.push(string_views(vals@)[i as int]));
            assert forall|x: Seq<char>| #[trigger] prefix1.contains(x) implies exists|k: int|
                0 <= k < t.len() && (#[trigger] t[k]).0 == x by {
                let j = choose|j: int| 0 <= j < prefix1.len() && #[trigger] prefix1[j] == x;
                if j < prefix.len() {
                    assert(prefix[j] == x);
                    assert(prefix.contains(x));
                    let k = choose|k: int| 0 <= k < t0.len() && (#[trigger] t0[k]).0 == x;
                    assert(t[k] == t0[k]);
                    assert(0 <= k < t.len() && t[k].0 == x);
                } else {
                    assert(x == string_views(vals@)[i as int]);
                    assert(x == key@);
                    let k = choose|k: int| 0 <= k < t.len() && (#[trigger] t[k]).0 == key@;
                    assert(0 <= k < t.len() && t[k].0 == x);
                }
            }
        }
        i = i + 1;
    }
    proof {
        assert(string_views(vals@).take(n as int) =~= string_views(vals@));
    }
    table
}

/// The aggregated view of the visits recorded for one identifier.
pub struct TrackingReport {
    /// All visits, whatever metadata they carry.
    pub total_visits: usize,
    /// Visits per client IP; visits with no known IP are not grouped here.
    pub by_ip: Vec<(String, usize)>,
    /// Visits per referrer; visits with none are not grouped here.
    pub by_referrer: Vec<(String, usize)>,
    /// Visits per user agent; visits with none are not grouped here.
    pub by_user_agent: Vec<(String, usize)>,
}

/// Aggregates visit records: the total, and grouped counts per dimension.
/// A record with no value in a dimension still counts in the total but is
/// excluded from that dimension's grouping.
pub fn report_for(records: &Vec<VisitRecord>) -> (r: TrackingReport)
    ensures
        r.total_visits == records@.len(),
        counts_table_ok(dim_values(visits_model(records@), Dimension::Ip), table_model(r.by_ip@)),
        counts_table_ok(
            dim_values(visits_model(records@), Dimension::Referrer),
            table_model(r.by_referrer@),
        ),
        counts_table_ok(
            dim_values(visits_model(records@), Dimension::UserAgent),
            table_model(r.by_user_agent@),
        ),
{
    TrackingReport {
        total_visits: records.len(),
        by_ip: grouped_counts(records, Dimension::Ip),
        by_referrer: grouped_counts(records, Dimension::Referrer),
        by_user_agent: grouped_counts(records, Dimension::UserAgent),
    }
}

impl LinkStore {
    /// The aggregated report for one identifier, over the visits recorded
    /// for it.
    pub fn report(&self, id: &String) -> (r: TrackingReport)
        ensures
            r.total_visits == visits_with_id(self.visits_m(), id@).len(),
            counts_table_ok(
                dim_values(visits_with_id(self.visits_m(), id@), Dimension::Ip),
                table_model(r.by_ip@),
            ),
            counts_table_ok(
                dim_values(visits_with_id(self.visits_m(), id@), Dimension::Referrer),
                table_model(r.by_referrer@),
            ),
            counts_table_ok(
                dim_values(visits_with_id(self.visits_m(), id@), Dimension::UserAgent),
                table_model(r.by_user_agent@),
            ),
    {
        let vs = self.visits_for(id);
        report_for(&vs)
    }
}

} // verus!
