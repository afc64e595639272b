//! Lists of names kept sorted (by character codes, as strings compare) and
//! without repeats.

use vstd::prelude::*;

use crate::parameters::ParameterValue;
use crate::templates::Bindings;
use crate::text::{chars_of, copy_string};
use crate::workflow_spec::strs_view;

verus! {

/// Whether `a` comes before `b`: at the first position where they differ
/// `a` has the smaller character, or `a` is a proper prefix of `b`.
pub open spec fn str_lt(a: Seq<char>, b: Seq<char>) -> bool
    decreases a.len(),
{
    if b.len() == 0 {
        false
    } else if a.len() == 0 {
        true
    } else if a[0] != b[0] {
        (a[0] as int) < (b[0] as int)
    } else {
        str_lt(a.drop_first(), b.drop_first())
    }
}

/// Each name comes before the next.
pub open spec fn strictly_sorted(v: Seq<Seq<char>>) -> bool {
    forall|i: int, j: int| 0 <= i < j < v.len() ==> str_lt(#[trigger] v[i], #[trigger] v[j])
}

/// `u` with `x` put in its place, unless `u` holds it already.
pub open spec fn insert_sorted(u: Seq<Seq<char>>, x: Seq<char>) -> Seq<Seq<char>>
    decreases u.len(),
{
    if u.len() == 0 {
        seq![x]
    } else if u[0] == x {
        u
    } else if str_lt(x, u[0]) {
        seq![x] + u
    } else {
        seq![u[0]] + insert_sorted(u.drop_first(), x)
    }
}

/// The names of `v` sorted, each once.
pub open spec fn sorted_unique(v: Seq<Seq<char>>) -> Seq<Seq<char>>
    decreases v.len(),
{
    if v.len() == 0 {
        Seq::empty()
    } else {
        insert_sorted(sorted_unique(v.drop_last()), v.last())
    }
}

pub proof fn lemma_str_lt_irreflexive(a: Seq<char>)
    ensures
        !str_lt(a, a),
    decreases a.len(),
{
    if a.len() > 0 {
        lemma_str_lt_irreflexive(a.drop_first());
    }
}

pub proof fn lemma_str_lt_trichotomy(a: Seq<char>, b: Seq<char>)
    ensures
        a != b ==> (str_lt(a, b) || str_lt(b, a)),
        !(str_lt(a, b) && str_lt(b, a)),
    decreases a.len(),
{
    if a.len() > 0 && b.len() > 0 {
        if a[0] == b[0] {
            lemma_str_lt_trichotomy(a.drop_first(), b.drop_first());
            if a != b {
                assert(a.drop_first() != b.drop_first()) by {
                    if a.drop_first() == b.drop_first() {
                        assert(a =~= seq![a[0]] + a.drop_first());
                        assert(b =~= seq![b[0]] + b.drop_first());
                    }
                }
            }
        }
    } else if a.len() == 0 && b.len() == 0 {
        assert(a =~= b);
    }
}

pub proof fn lemma_str_lt_transitive(a: Seq<char>, b: Seq<char>, c: Seq<char>)
    requires
        str_lt(a, b),
        str_lt(b, c),
    ensures
        str_lt(a, c),
    decreases a.len(),
{
    if a.len() > 0 && b.len() > 0 && c.len() > 0 {
        if a[0] == b[0] && b[0] == c[0] {
            lemma_str_lt_transitive(a.drop_first(), b.drop_first(), c.drop_first());
        }
    }
}

proof fn lemma_insert_sorted(u: Seq<Seq<char>>, x: Seq<char>)
    requires
        strictly_sorted(u),
    ensures
        strictly_sorted(insert_sorted(u, x)),
        forall|y: Seq<char>| #[trigger] insert_sorted(u, x).contains(y) <==> (u.contains(y) || y == x),
    decreases u.len(),
{
    let r = insert_sorted(u, x);
    if u.len() == 0 {
        assert(r =~= seq![x]);
        assert forall|y: Seq<char>| r.contains(y) <==> (u.contains(y) || y == x) by {
            if y == x {
                assert(r[0] == y);
            }
        }
    } else if u[0] == x {
        assert forall|y: Seq<char>| r.contains(y) <==> (u.contains(y) || y == x) by {
            if y == x {
                assert(u[0] == y);
            }
        }
    } else if str_lt(x, u[0]) {
        assert forall|i: int, j: int| 0 <= i < j < r.len() implies str_lt(#[trigger] r[i], #[trigger] r[j]) by {
            if i == 0 {
                if j > 1 {
                    lemma_str_lt_transitive(x, u[0], u[j - 1]);
                }
            } else {
                assert(r[i] == u[i - 1] && r[j] == u[j - 1]);
            }
        }
        assert forall|y: Seq<char>| r.contains(y) <==> (u.contains(y) || y == x) by {
            if r.contains(y) {
                let k = choose|k: int| 0 <= k < r.len() && r[k] == y;
                if k > 0 {
                    assert(u[k - 1] == y);
                }
            }
            if u.contains(y) {
                let k = choose|k: int| 0 <= k < u.len() && u[k] == y;
                assert(r[k + 1] == y);
            }
            if y == x {
                assert(r[0] == y);
            }
        }
    } else {
        let t = u.drop_first();
        assert(strictly_sorted(t)) by {
            assert forall|i: int, j: int| 0 <= i < j < t.len() implies str_lt(#[trigger] t[i], #[trigger] t[j]) by {
                assert(t[i] == u[i + 1] && t[j] == u[j + 1]);
            }
        }
        lemma_insert_sorted(t, x);
        let rest = insert_sorted(t, x);
        lemma_str_lt_trichotomy(x, u[0]);
        assert(str_lt(u[0], x));
        assert forall|i: int, j: int| 0 <= i < j < r.len() implies str_lt(#[trigger] r[i], #[trigger] r[j]) by {
            if i == 0 {
                assert(r[j] == rest[j - 1]);
                assert(rest.contains(rest[j - 1]));
                if rest[j - 1] != x {
                    assert(t.contains(rest[j - 1]));
                    let k = choose|k: int| 0 <= k < t.len() && t[k] == rest[j - 1];
                    assert(u[k + 1] == t[k]);
                }
            } else {
                assert(r[i] == rest[i - 1] && r[j] == rest[j - 1]);
            }
        }
        assert forall|y: Seq<char>| r.contains(y) <==> (u.contains(y) || y == x) by {
            if r.contains(y) {
                let k = choose|k: int| 0 <= k < r.len() && r[k] == y;
                if k > 0 {
                    assert(rest[k - 1] == y);
                    assert(rest.contains(y));
                    if t.contains(y) {
                        let m = choose|m: int| 0 <= m < t.len() && t[m] == y;
                        assert(u[m + 1] == y);
                    }
                } else {
                    assert(u[0] == y);
                }
            }
            if u.contains(y) {
                let k = choose|k: int| 0 <= k < u.len() && u[k] == y;
                if k > 0 {
                    assert(t[k - 1] == y);
                    assert(t.contains(y));
                    assert(rest.contains(y));
                    let m = choose|m: int| 0 <= m < rest.len() && rest[m] == y;
                    assert(r[m + 1] == y);
                } else {
                    assert(r[0] == y);
                }
            }
            if y == x {
                assert(insert_sorted(t, x).contains(x));
                let m = choose|m: int| 0 <= m < rest.len() && rest[m] == x;
                assert(r[m + 1] == x);
            }
        }
    }
}

/// The sorted names are strictly sorted and are exactly the names given.
pub proof fn lemma_sorted_unique(v: Seq<Seq<char>>)
    ensures
        strictly_sorted(sorted_unique(v)),
        forall|y: Seq<char>| #[trigger] sorted_unique(v).contains(y) <==> v.contains(y),
    decreases v.len(),
{
    if v.len() > 0 {
        lemma_sorted_unique(v.drop_last());
        lemma_insert_sorted(sorted_unique(v.drop_last()), v.last());
        assert forall|y: Seq<char>| sorted_unique(v).contains(y) <==> v.contains(y) by {
            if v.drop_last().contains(y) {
                let k = choose|k: int| 0 <= k < v.len() - 1 && v.drop_last()[k] == y;
                assert(v[k] == y);
            }
            if v.contains(y) && y != v.last() {
                let k = choose|k: int| 0 <= k < v.len() && v[k] == y;
                assert(k < v.len() - 1);
                assert(v.drop_last()[k] == y);
            }
            if y == v.last() {
                assert(v[v.len() - 1] == y);
            }
        }
    }
}

pub(crate) fn str_lt_exec(a: &Vec<char>, b: &Vec<char>) -> (r: bool)
    ensures
        r == str_lt(a@, b@),
{
    let mut i: usize = 0;
    proof {
        assert(a@.skip(0) =~= a@);
        assert(b@.skip(0) =~= b@);
    }
    while i < a.len() && i < b.len() && a[i] == b[i]
        invariant
            i <= a.len(),
            i <= b.len(),
            str_lt(a@, b@) == str_lt(a@.skip(i as int), b@.skip(i as int)),
        decreases a.len() - i,
    {
        proof {
            assert(a@.skip(i as int).drop_first() =~= a@.skip(i + 1));
            assert(b@.skip(i as int).drop_first() =~= b@.skip(i + 1));
        }
        i = i + 1;
    }
    if i >= b.len() {
        false
    } else if i >= a.len() {
        true
    } else {
        proof {
            assert(a@.skip(i as int)[0] == a@[i as int]);
            assert(b@.skip(i as int)[0] == b@[i as int]);
        }
        a[i] < b[i]
    }
}

/// Where `x` goes in `u`, and whether it is there already.
fn insert_position(u: &Vec<String>, x: &Vec<char>) -> (r: (usize, bool))
    ensures
        r.0 <= u.len(),
        r.1 ==> insert_sorted(strs_view(u@), x@) == strs_view(u@),
        !r.1 ==> insert_sorted(strs_view(u@), x@) == strs_view(u@).take(r.0 as int) + (seq![x@]
            + strs_view(u@).skip(r.0 as int)),
{
    let ghost start = strs_view(u@);
    let mut i: usize = 0;
    proof {
        assert(start.skip(0) =~= start);
        assert(start.take(0) =~= Seq::<Seq<char>>::empty());
    }
    while i < u.len()
        invariant
            i <= u.len(),
            start == strs_view(u@),
            insert_sorted(start, x@) == start.take(i as int) + insert_sorted(start.skip(i as int), x@),
        decreases u.len() - i,
    {
        let ui = chars_of(u[i].as_str());
        proof {
            assert(start.skip(i as int)[0] == u@[i as int]@);
            assert(start.skip(i as int).drop_first() =~= start.skip(i + 1));
        }
        if crate::text::chars_eq(&ui, x) {
            proof {
                assert(insert_sorted(start.skip(i as int), x@) == start.skip(i as int));
                assert(start.take(i as int) + start.skip(i as int) =~= start);
            }
            return (i, true);
        }
        if str_lt_exec(x, &ui) {
            proof {
                assert(insert_sorted(start.skip(i as int), x@) == seq![x@] + start.skip(i as int));
            }
            return (i, false);
        }
        proof {
            assert(start.take(i + 1) =~= start.take(i as int) + seq![start[i as int]]);
            assert(insert_sorted(start.skip(i as int), x@) == seq![start[i as int]] + insert_sorted(start.skip(i + 1), x@));
            assert(start.take(i as int) + (seq![start[i as int]] + insert_sorted(start.skip(i + 1), x@))
                =~= start.take(i + 1) + insert_sorted(start.skip(i + 1), x@));
        }
        i = i + 1;
    }
    proof {
        assert(start.skip(i as int) =~= Seq::<Seq<char>>::empty());
        assert(insert_sorted(start.skip(i as int), x@) == seq![x@]);
    }
    (i, false)
}

/// Puts `x` in its place in a sorted list of names, unless it is there.
pub fn insert_sorted_exec(u: &mut Vec<String>, x: String)
    ensures
        strs_view(final(u)@) == insert_sorted(strs_view(old(u)@), x@),
{
    let xv = chars_of(x.as_str());
    let (i, found) = insert_position(u, &xv);
    if !found {
        let ghost before = strs_view(u@);
        u.insert(i, x);
        proof {
            assert(strs_view(u@) =~= before.take(i as int) + (seq![xv@] + before.skip(i as int)));
        }
    }
}

/// The column names of a row, in order.
pub open spec fn row_keys(row: Seq<(String, ParameterValue)>) -> Seq<Seq<char>> {
    row.map_values(|p: (String, ParameterValue)| p.0@)
}

/// The column names of the first `k` rows, row after row.
pub open spec fn keys_upto(rows: Seq<Bindings>, k: nat) -> Seq<Seq<char>>
    decreases k,
{
    if k == 0 || k > rows.len() {
        Seq::empty()
    } else {
        keys_upto(rows, (k - 1) as nat) + row_keys(rows[k - 1]@)
    }
}

/// The column names of a parameter table, sorted, each once.
pub fn table_column_names(rows: &Vec<Bindings>) -> (r: Vec<String>)
    ensures
        strs_view(r@) == sorted_unique(keys_upto(rows@, rows@.len())),
{
    let mut out: Vec<String> = Vec::new();
    let mut i: usize = 0;
    proof {
        assert(strs_view(out@) =~= sorted_unique(keys_upto(rows@, 0)));
    }
    while i < rows.len()
        invariant
            i <= rows@.len(),
            strs_view(out@) == sorted_unique(keys_upto(rows@, i as nat)),
        decreases rows@.len() - i,
    {
        let row = &rows[i];
        let ghost base = keys_upto(rows@, i as nat);
        let ghost keys = row_keys(row@);
        let mut j: usize = 0;
        proof {
            assert(base + keys.take(0) =~= base);
        }
        while j < row.len()
            invariant
                j <= row@.len(),
                keys == row_keys(row@),
                strs_view(out@) == sorted_unique(base + keys.take(j as int)),
            decreases row@.len() - j,
        {
            let ghost prev = base + keys.take(j as int);
            insert_sorted_exec(&mut out, copy_string(&row[j].0));
            proof {
                let next = base + keys.take(j + 1);
                assert(next.drop_last() =~= prev);
                assert(next.last() == row@[j as int].0@);
            }
            j = j + 1;
        }
        proof {
            assert(keys.take(row@.len() as int) =~= keys);
            assert(keys_upto(rows@, (i + 1) as nat) == base + row_keys(rows@[i as int]@));
        }
        i = i + 1;
    }
    out
}

} // verus!
