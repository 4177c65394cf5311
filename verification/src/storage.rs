//! The stored data of the tracker: watched items, and price entries grouped
//! by the URL of their item.

use vstd::prelude::*;

verus! {

/// A watched product page.
#[derive(Debug)]
pub struct WatchItem {
    pub id: i32,
    pub url: String,
}

/// The id of a newly inserted watch item from the row id that the database
/// reports: the row id narrowed to 32 bits, as `as i32` narrows it.
pub fn watch_item_id(rowid: i64) -> (id: i32)
    ensures
        id == rowid as i32,
        i32::MIN <= rowid <= i32::MAX ==> id == rowid,
{
    rowid as i32
}

/// Entry rows grouped by URL: each URL of `rows` maps to the values of its
/// rows, in the order of `rows`.
pub open spec fn grouped<T>(rows: Seq<(String, T)>) -> Map<Seq<char>, Seq<T>>
    decreases rows.len(),
{
    if rows.len() == 0 {
        Map::empty()
    } else {
        let m = grouped(rows.drop_last());
        let k = rows.last().0@;
        let v = rows.last().1;
        if m.contains_key(k) {
            m.insert(k, m[k].push(v))
        } else {
            m.insert(k, seq![v])
        }
    }
}

/// The values of the rows of URL `k`, in the order of `rows`.
pub open spec fn rows_of<T>(rows: Seq<(String, T)>, k: Seq<char>) -> Seq<T> {
    rows.filter(row_has_url::<T>(k)).map_values(row_value::<T>())
}

/// Whether a row belongs to URL `k`.
pub open spec fn row_has_url<T>(k: Seq<char>) -> spec_fn((String, T)) -> bool {
    |r: (String, T)| r.0@ == k
}

/// The value of a row.
pub open spec fn row_value<T>() -> spec_fn((String, T)) -> T {
    |r: (String, T)| r.1
}

/// A URL has a group exactly when some row names it, and its group holds the
/// values of that URL's rows, in row order, and nothing else.
pub proof fn lemma_group_is_rows_of_url<T>(rows: Seq<(String, T)>, k: Seq<char>)
    ensures
        grouped(rows).contains_key(k) <==> exists|i: int| 0 <= i < rows.len() && rows[i].0@ == k,
        grouped(rows).contains_key(k) ==> grouped(rows)[k] == rows_of(rows, k),
    decreases rows.len(),
{
    if rows.len() > 0 {
        let p = rows.drop_last();
        let last = rows.last();
        let f = row_has_url::<T>(k);
        let g = row_value::<T>();
        lemma_group_is_rows_of_url(p, k);
        reveal_with_fuel(Seq::<_>::filter, 1);
        assert(rows.drop_last() == p);
        if last.0@ == k {
            assert(rows.filter(f) == p.filter(f).push(last));
            assert(p.filter(f).push(last).map_values(g) =~= p.filter(f).map_values(g).push(last.1));
            if !grouped(p).contains_key(k) {
                assert(p.filter(f).len() == 0) by {
                    if p.filter(f).len() > 0 {
                        let x = p.filter(f)[0];
                        p.lemma_filter_pred(f, 0);
                        assert(p.filter(f).contains(x));
                        p.lemma_filter_contains_rev(f, x);
                        let w = choose|w: int| 0 <= w < p.len() && p[w] == x;
                        assert(p[w].0@ == k);
                    }
                }
                assert(p.filter(f).map_values(g) =~= Seq::<T>::empty());
            }
            assert(rows[rows.len() - 1].0@ == k);
        } else {
            assert(rows.filter(f) == p.filter(f));
            if exists|i: int| 0 <= i < rows.len() && rows[i].0@ == k {
                let i = choose|i: int| 0 <= i < rows.len() && rows[i].0@ == k;
                assert(p[i].0@ == k);
            }
            if exists|i: int| 0 <= i < p.len() && p[i].0@ == k {
                let i = choose|i: int| 0 <= i < p.len() && p[i].0@ == k;
                assert(rows[i].0@ == k);
            }
        }
    }
}

/// The groups of `out` are those of `rows`: no URL twice, each group equal
/// to the group that `grouped` gives its URL, and every URL of `rows` present.
pub open spec fn groups_of<T>(out: Seq<(String, Vec<T>)>, rows: Seq<(String, T)>) -> bool {
    &&& forall|i: int, j: int| 0 <= i < j < out.len() ==> out[i].0@ != out[j].0@
    &&& forall|i: int|
        #![trigger out[i]]
        0 <= i < out.len() ==> grouped(rows).contains_key(out[i].0@) && out[i].1@
            == grouped(rows)[out[i].0@]
    &&& forall|k: Seq<char>|
        #[trigger] grouped(rows).contains_key(k) ==> exists|i: int|
            0 <= i < out.len() && out[i].0@ == k
}

/// The index of the group of `key` in `groups`, if there is one.
fn position_of<T>(groups: &Vec<(String, Vec<T>)>, key: &String) -> (r: Option<usize>)
    ensures
        match r {
            Some(j) => j < groups@.len() && groups@[j as int].0@ == key@,
            None => forall|j: int| 0 <= j < groups@.len() ==> groups@[j].0@ != key@,
        },
{
    let mut j: usize = 0;
    while j < groups.len()
        invariant
            j <= groups@.len(),
            forall|k: int| 0 <= k < j ==> groups@[k].0@ != key@,
        decreases groups@.len() - j,
    {
        if groups[j].0 == *key {
            return Some(j);
        }
        j += 1;
    }
    None
}

/// Groups entry rows (URL, value), given in query order, by URL: one group
/// per URL, holding the values of that URL's rows in query order.
pub fn group_entries<T>(rows: Vec<(String, T)>) -> (out: Vec<(String, Vec<T>)>)
    ensures
        groups_of(out@, rows@),
{
    let ghost all = rows@;
    let mut rows = rows;
    let mut out: Vec<(String, Vec<T>)> = Vec::new();
    let mut i: usize = 0;
    let n = rows.len();
    while rows.len() > 0
        invariant
            n == all.len(),
            i <= n,
            rows@ == all.skip(i as int),
            groups_of(out@, all.take(i as int)),
        decreases rows@.len(),
    {
        let ghost before = out@;
        let ghost done = all.take(i as int);
        let (key, value) = rows.remove(0);
        assert(all.take(i + 1).drop_last() =~= done);
        assert(all[i as int] == (key, value));
        let ghost kv = key@;
        let ghost next = grouped(all.take(i + 1));
        assert(next == if grouped(done).contains_key(kv) {
            grouped(done).insert(kv, grouped(done)[kv].push(value))
        } else {
            grouped(done).insert(kv, seq![value])
        });
        match position_of(&out, &key) {
            Some(j) => {
                let mut group = out.remove(j);
                group.1.push(value);
                out.insert(j, group);
                assert forall|k: Seq<char>|
                    #[trigger] grouped(all.take(i + 1)).contains_key(k) implies exists|m: int|
                        0 <= m < out@.len() && out@[m].0@ == k by {
                    if k != key@ {
                        let m = choose|m: int| 0 <= m < before.len() && before[m].0@ == k;
                        assert(out@[m].0@ == k);
                    } else {
                        assert(out@[j as int].0@ == k);
                    }
                }
            },
            None => {
                assert(!grouped(done).contains_key(kv));
                let mut fresh: Vec<T> = Vec::new();
                fresh.push(value);
                assert(fresh@ =~= seq![value]);
                out.push((key, fresh));
                assert(out@[before.len() as int].0@ == kv);
                assert forall|k: Seq<char>|
                    #[trigger] next.contains_key(k) implies exists|m: int|
                        0 <= m < out@.len() && out@[m].0@ == k by {
                    if k != kv {
                        let m = choose|m: int| 0 <= m < before.len() && before[m].0@ == k;
                        assert(out@[m].0@ == k);
                    } else {
                        assert(out@[before.len() as int].0@ == k);
                    }
                }
            },
        }
        i += 1;
        assert(rows@ =~= all.skip(i as int));
    }
    assert(all.take(n as int) =~= all);
    out
}

} // verus!
