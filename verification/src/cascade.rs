//! The mathematical model of a cascading key/value map: an ordered sequence
//! of entries, each a key with an optional value.  Supplying defaults is a
//! key-wise override: the result keeps the defaults' entries in their order,
//! with the overriding side's value wherever both sides hold a key, followed
//! by the overriding side's own keys in their order.  Rendering emits
//! `key: value;` for every present, non-empty value, space-joined; an entry
//! whose value is absent or empty emits nothing.

use vstd::prelude::*;

verus! {

/// One entry of a cascading map, at the level of character sequences.
pub type EntryView = (Seq<char>, Option<Seq<char>>);

/// Whether some entry of `s` holds the key `k`.
pub open spec fn has_key(s: Seq<EntryView>, k: Seq<char>) -> bool {
    exists|i: int| 0 <= i < s.len() && (#[trigger] s[i]).0 == k
}

/// The position of the first entry of `s` whose key is `k`, or `-1`.
pub open spec fn find_key(s: Seq<EntryView>, k: Seq<char>) -> int
    decreases s.len(),
{
    if s.len() == 0 {
        -1
    } else if s[0].0 == k {
        0
    } else {
        let r = find_key(s.drop_first(), k);
        if r < 0 {
            -1
        } else {
            r + 1
        }
    }
}

/// The value stored at key `k`: `None` when the key is absent, otherwise
/// the (optional) value of its first entry.
pub open spec fn value_at(s: Seq<EntryView>, k: Seq<char>) -> Option<Option<Seq<char>>> {
    if find_key(s, k) >= 0 {
        Some(s[find_key(s, k)].1)
    } else {
        None
    }
}

/// No two entries of `s` hold the same key.
pub open spec fn distinct_keys(s: Seq<EntryView>) -> bool {
    forall|i: int, j: int| 0 <= i < j < s.len() ==> (#[trigger] s[i]).0 != (#[trigger] s[j]).0
}

/// Inserting at a key that is present keeps its place in the order and
/// replaces only its value; a new key is appended last.
pub open spec fn insert_entry(s: Seq<EntryView>, k: Seq<char>, v: Option<Seq<char>>) -> Seq<
    EntryView,
> {
    if find_key(s, k) >= 0 {
        s.update(find_key(s, k), (k, v))
    } else {
        s.push((k, v))
    }
}

/// Overlaying `over` onto `base`: every entry of `over` is inserted into
/// `base`, first to last.
pub open spec fn merge_entries(base: Seq<EntryView>, over: Seq<EntryView>) -> Seq<EntryView>
    decreases over.len(),
{
    if over.len() == 0 {
        base
    } else {
        insert_entry(merge_entries(base, over.drop_last()), over.last().0, over.last().1)
    }
}

/// The defaults' entries, each with the overriding side's value wherever
/// that side holds the same key.
pub open spec fn override_base(base: Seq<EntryView>, over: Seq<EntryView>) -> Seq<EntryView> {
    Seq::new(
        base.len(),
        |i: int|
            (
                base[i].0,
                if find_key(over, base[i].0) >= 0 {
                    over[find_key(over, base[i].0)].1
                } else {
                    base[i].1
                },
            ),
    )
}

/// The overriding side's entries whose keys the defaults do not hold, in
/// their order.
pub open spec fn fresh_over(base: Seq<EntryView>, over: Seq<EntryView>) -> Seq<EntryView>
    decreases over.len(),
{
    if over.len() == 0 {
        Seq::empty()
    } else {
        let f = fresh_over(base, over.drop_last());
        if has_key(base, over.last().0) {
            f
        } else {
            f.push(over.last())
        }
    }
}

/// What one entry renders to: `key: value;` when a non-empty value is
/// present, nothing otherwise.
pub open spec fn entry_text(e: EntryView) -> Seq<char> {
    match e.1 {
        Some(v) => if v.len() > 0 {
            e.0 + ": "@ + v + ";"@
        } else {
            Seq::empty()
        },
        None => Seq::empty(),
    }
}

/// What a sequence of entries renders to: the non-empty renderings,
/// space-joined, in entry order.
pub open spec fn entries_text(s: Seq<EntryView>) -> Seq<char>
    decreases s.len(),
{
    if s.len() == 0 {
        Seq::<char>::empty()
    } else {
        let front = entries_text(s.drop_last());
        let piece = entry_text(s.last());
        if piece.len() == 0 {
            front
        } else if front.len() == 0 {
            piece
        } else {
            front + " "@ + piece
        }
    }
}

pub proof fn lemma_find_key_props(s: Seq<EntryView>, k: Seq<char>)
    ensures
        find_key(s, k) >= 0 <==> has_key(s, k),
        find_key(s, k) >= 0 ==> find_key(s, k) < s.len() && s[find_key(s, k)].0 == k,
        find_key(s, k) >= 0 ==> forall|j: int|
            0 <= j < find_key(s, k) ==> (#[trigger] s[j]).0 != k,
        find_key(s, k) < 0 ==> find_key(s, k) == -1 && forall|j: int|
            0 <= j < s.len() ==> (#[trigger] s[j]).0 != k,
    decreases s.len(),
{
    if s.len() == 0 {
    } else if s[0].0 == k {
    } else {
        let t = s.drop_first();
        lemma_find_key_props(t, k);
        assert(forall|j: int| 0 <= j < t.len() ==> #[trigger] t[j] == s[j + 1]);
        if find_key(t, k) >= 0 {
            assert(s[find_key(t, k) + 1].0 == k);
            assert forall|j: int| 0 <= j < find_key(s, k) implies (#[trigger] s[j]).0 != k by {
                if j > 0 {
                    assert(s[j] == t[j - 1]);
                }
            }
        } else {
            assert(forall|j: int| 0 < j < s.len() ==> (#[trigger] s[j]).0 == t[j - 1].0);
            assert(!has_key(s, k));
        }
    }
}

pub proof fn lemma_find_key_push(s: Seq<EntryView>, e: EntryView, k: Seq<char>)
    ensures
        find_key(s.push(e), k) == if find_key(s, k) >= 0 {
            find_key(s, k)
        } else if e.0 == k {
            s.len() as int
        } else {
            -1
        },
    decreases s.len(),
{
    if s.len() == 0 {
        assert(s.push(e)[0] == e);
        if e.0 == k {
            assert(find_key(s.push(e), k) == 0);
        } else {
            let t = s.push(e).drop_first();
            assert(t =~= Seq::<EntryView>::empty());
            assert(t.len() == 0);
            assert(find_key(t, k) == -1);
            assert(find_key(s.push(e), k) == -1);
        }
        assert(find_key(s, k) == -1);
    } else {
        assert(s.push(e)[0] == s[0]);
        if s[0].0 == k {
        } else {
            assert(s.push(e).drop_first() =~= s.drop_first().push(e));
            lemma_find_key_push(s.drop_first(), e, k);
        }
    }
}

pub proof fn lemma_find_key_update_value(s: Seq<EntryView>, i: int, v: Option<Seq<char>>, k: Seq<char>)
    requires
        0 <= i < s.len(),
    ensures
        find_key(s.update(i, (s[i].0, v)), k) == find_key(s, k),
    decreases s.len(),
{
    let s2 = s.update(i, (s[i].0, v));
    assert(s2[0].0 == s[0].0);
    if s[0].0 == k {
    } else {
        if i == 0 {
            assert(s2.drop_first() =~= s.drop_first());
        } else {
            assert(s2.drop_first() =~= s.drop_first().update(i - 1, (s.drop_first()[i - 1].0, v)));
            lemma_find_key_update_value(s.drop_first(), i - 1, v, k);
        }
    }
}

pub proof fn lemma_find_key_concat(a: Seq<EntryView>, b: Seq<EntryView>, k: Seq<char>)
    ensures
        find_key(a + b, k) == if find_key(a, k) >= 0 {
            find_key(a, k)
        } else if find_key(b, k) >= 0 {
            a.len() + find_key(b, k)
        } else {
            -1
        },
    decreases a.len(),
{
    if a.len() == 0 {
        assert(a + b =~= b);
    } else {
        assert((a + b)[0] == a[0]);
        if a[0].0 == k {
        } else {
            assert((a + b).drop_first() =~= a.drop_first() + b);
            lemma_find_key_concat(a.drop_first(), b, k);
        }
    }
}

pub proof fn lemma_find_key_same_keys(s1: Seq<EntryView>, s2: Seq<EntryView>, k: Seq<char>)
    requires
        s1.len() == s2.len(),
        forall|i: int| 0 <= i < s1.len() ==> (#[trigger] s1[i]).0 == (#[trigger] s2[i]).0,
    ensures
        find_key(s1, k) == find_key(s2, k),
    decreases s1.len(),
{
    if s1.len() == 0 {
    } else if s1[0].0 == k {
    } else {
        let t1 = s1.drop_first();
        let t2 = s2.drop_first();
        assert(forall|i: int| 0 <= i < t1.len() ==> (#[trigger] t1[i]).0 == (#[trigger] t2[i]).0)
            by {
            assert(forall|i: int|
                0 <= i < t1.len() ==> #[trigger] t1[i] == s1[i + 1] && #[trigger] t2[i] == s2[i
                    + 1]);
        }
        lemma_find_key_same_keys(t1, t2, k);
    }
}

/// Inserting at `k` sets the value stored at `k` and leaves the value at
/// every other key unchanged.
pub proof fn lemma_insert_value(s: Seq<EntryView>, k: Seq<char>, v: Option<Seq<char>>, k2: Seq<char>)
    ensures
        value_at(insert_entry(s, k, v), k2) == if k2 == k {
            Some(v)
        } else {
            value_at(s, k2)
        },
{
    lemma_find_key_props(s, k);
    lemma_find_key_props(s, k2);
    if find_key(s, k) >= 0 {
        let i = find_key(s, k);
        let s2 = s.update(i, (k, v));
        assert(s2 =~= s.update(i, (s[i].0, v)));
        lemma_find_key_update_value(s, i, v, k2);
        lemma_find_key_update_value(s, i, v, k);
    } else {
        lemma_find_key_push(s, (k, v), k2);
        lemma_find_key_push(s, (k, v), k);
    }
}

/// Inserting preserves key distinctness, and adds the key `k` to the key
/// set while keeping every other key.
pub proof fn lemma_insert_distinct(s: Seq<EntryView>, k: Seq<char>, v: Option<Seq<char>>)
    requires
        distinct_keys(s),
    ensures
        distinct_keys(insert_entry(s, k, v)),
        forall|k2: Seq<char>|
            has_key(insert_entry(s, k, v), k2) <==> (has_key(s, k2) || k2 == k),
{
    lemma_find_key_props(s, k);
    let s2 = insert_entry(s, k, v);
    if find_key(s, k) >= 0 {
        let i = find_key(s, k);
        assert(forall|j: int| 0 <= j < s.len() ==> (#[trigger] s2[j]).0 == s[j].0);
        assert(distinct_keys(s2));
        assert forall|k2: Seq<char>| has_key(s2, k2) <==> (has_key(s, k2) || k2 == k) by {
            if has_key(s2, k2) {
                let w = choose|w: int| 0 <= w < s2.len() && (#[trigger] s2[w]).0 == k2;
                assert(s[w].0 == k2);
            }
            if has_key(s, k2) {
                let w = choose|w: int| 0 <= w < s.len() && (#[trigger] s[w]).0 == k2;
                assert(s2[w].0 == k2);
            }
            if k2 == k {
                assert(s2[i].0 == k2);
            }
        }
    } else {
        assert(forall|j: int| 0 <= j < s.len() ==> #[trigger] s2[j] == s[j]);
        assert(s2[s.len() as int].0 == k);
        assert forall|a: int, b: int| 0 <= a < b < s2.len() implies (#[trigger] s2[a]).0 != (
        #[trigger] s2[b]).0 by {
            if b == s.len() {
                assert(s2[a].0 == s[a].0);
            }
        }
        assert forall|k2: Seq<char>| has_key(s2, k2) <==> (has_key(s, k2) || k2 == k) by {
            if has_key(s2, k2) {
                let w = choose|w: int| 0 <= w < s2.len() && (#[trigger] s2[w]).0 == k2;
                if w < s.len() {
                    assert(s[w].0 == k2);
                }
            }
            if has_key(s, k2) {
                let w = choose|w: int| 0 <= w < s.len() && (#[trigger] s[w]).0 == k2;
                assert(s2[w].0 == k2);
            }
        }
    }
}

/// Overlaying preserves key distinctness of the base.
pub proof fn lemma_merge_distinct(base: Seq<EntryView>, over: Seq<EntryView>)
    requires
        distinct_keys(base),
    ensures
        distinct_keys(merge_entries(base, over)),
    decreases over.len(),
{
    if over.len() == 0 {
    } else {
        lemma_merge_distinct(base, over.drop_last());
        lemma_insert_distinct(merge_entries(base, over.drop_last()), over.last().0, over.last().1);
    }
}

pub proof fn lemma_fresh_over_keys(base: Seq<EntryView>, over: Seq<EntryView>, k: Seq<char>)
    ensures
        has_key(fresh_over(base, over), k) <==> (has_key(over, k) && !has_key(base, k)),
    decreases over.len(),
{
    let f = fresh_over(base, over);
    if over.len() == 0 {
        assert(!has_key(over, k));
        assert(!has_key(f, k));
    } else {
        let o = over.drop_last();
        let e = over.last();
        lemma_fresh_over_keys(base, o, k);
        let fp = fresh_over(base, o);
        assert(over =~= o.push(e));
        lemma_find_key_push(o, e, k);
        lemma_find_key_props(o, k);
        lemma_find_key_props(over, k);
        assert(has_key(over, k) <==> (has_key(o, k) || e.0 == k));
        if has_key(base, e.0) {
            assert(f == fp);
            if has_key(f, k) {
                assert(has_key(o, k) && !has_key(base, k));
            }
        } else {
            assert(f == fp.push(e));
            lemma_find_key_push(fp, e, k);
            lemma_find_key_props(fp, k);
            lemma_find_key_props(f, k);
            assert(has_key(f, k) <==> (has_key(fp, k) || e.0 == k));
        }
    }
}

/// The value stored in the overlay result: the overriding side's value at
/// every key it holds (present-but-absent values included), the defaults'
/// value at every other key.
pub proof fn lemma_merge_lookup(base: Seq<EntryView>, over: Seq<EntryView>, k: Seq<char>)
    requires
        distinct_keys(over),
    ensures
        value_at(merge_entries(base, over), k) == if has_key(over, k) {
            value_at(over, k)
        } else {
            value_at(base, k)
        },
    decreases over.len(),
{
    lemma_find_key_props(over, k);
    if over.len() == 0 {
    } else {
        let o = over.drop_last();
        let e = over.last();
        assert(distinct_keys(o)) by {
            assert(forall|i: int| 0 <= i < o.len() ==> #[trigger] o[i] == over[i]);
        }
        lemma_merge_lookup(base, o, k);
        let m = merge_entries(base, o);
        lemma_insert_value(m, e.0, e.1, k);
        assert(over =~= o.push(e));
        lemma_find_key_push(o, e, k);
        lemma_find_key_props(o, k);
        if k == e.0 {
            assert(!has_key(o, k)) by {
                if has_key(o, k) {
                    let w = choose|w: int| 0 <= w < o.len() && (#[trigger] o[w]).0 == k;
                    assert(over[w].0 == over[over.len() - 1].0);
                }
            }
            assert(find_key(over, k) == o.len());
            assert(value_at(over, k) == Some(e.1));
        } else {
            assert(has_key(over, k) <==> has_key(o, k));
            if has_key(o, k) {
                assert(find_key(over, k) == find_key(o, k));
                assert(over[find_key(o, k)] == o[find_key(o, k)]);
            }
        }
    }
}

/// The shape of the overlay result: the defaults' entries in their order,
/// each overridden where the overriding side holds its key, followed by the
/// overriding side's fresh entries in their order.
pub proof fn lemma_merge_shape(base: Seq<EntryView>, over: Seq<EntryView>)
    requires
        distinct_keys(base),
        distinct_keys(over),
    ensures
        merge_entries(base, over) == override_base(base, over) + fresh_over(base, over),
    decreases over.len(),
{
    if over.len() == 0 {
        assert(override_base(base, over) =~= base) by {
            lemma_find_key_props(over, Seq::<char>::empty());
            assert(forall|i: int|
                0 <= i < base.len() ==> find_key(over, (#[trigger] base[i]).0) == -1);
        }
        assert(merge_entries(base, over) =~= override_base(base, over) + fresh_over(base, over));
    } else {
        let o = over.drop_last();
        let e = over.last();
        assert(distinct_keys(o)) by {
            assert(forall|i: int| 0 <= i < o.len() ==> #[trigger] o[i] == over[i]);
        }
        assert(over =~= o.push(e));
        assert(!has_key(o, e.0)) by {
            if has_key(o, e.0) {
                let w = choose|w: int| 0 <= w < o.len() && (#[trigger] o[w]).0 == e.0;
                assert(over[w].0 == over[over.len() - 1].0);
            }
        }
        lemma_find_key_props(o, e.0);
        lemma_merge_shape(base, o);
        let ob = override_base(base, o);
        let fr = fresh_over(base, o);
        let m = ob + fr;
        assert(ob.len() == base.len());
        assert(forall|i: int| 0 <= i < base.len() ==> (#[trigger] ob[i]).0 == base[i].0);
        lemma_find_key_same_keys(ob, base, e.0);
        lemma_find_key_concat(ob, fr, e.0);
        lemma_find_key_props(base, e.0);
        lemma_fresh_over_keys(base, o, e.0);
        lemma_find_key_props(fr, e.0);
        // How each default entry's override changes when `e` is appended to
        // the overriding side.
        assert forall|i: int| 0 <= i < base.len() implies (#[trigger] override_base(base, over)[i])
            == if base[i].0 == e.0 {
            (base[i].0, e.1)
        } else {
            ob[i]
        } by {
            lemma_find_key_push(o, e, base[i].0);
            lemma_find_key_props(o, base[i].0);
            if base[i].0 == e.0 {
                assert(find_key(over, base[i].0) == o.len());
                assert(over[o.len() as int] == e);
            } else if find_key(o, base[i].0) >= 0 {
                assert(over[find_key(o, base[i].0)] == o[find_key(o, base[i].0)]);
            }
        }
        if find_key(base, e.0) >= 0 {
            let i = find_key(base, e.0);
            assert(find_key(ob, e.0) == i);
            assert(find_key(m, e.0) == i);
            assert(merge_entries(base, over) == m.update(i, (e.0, e.1)));
            assert(fresh_over(base, over) == fr);
            assert forall|j: int| 0 <= j < base.len() implies (#[trigger] override_base(
                base,
                over,
            )[j]) == m.update(i, (e.0, e.1))[j] by {
                if j != i {
                    assert(base[j].0 != e.0);
                }
            }
            assert(m.update(i, (e.0, e.1)) =~= override_base(base, over) + fresh_over(base, over));
        } else {
            assert(find_key(ob, e.0) == -1);
            assert(!has_key(fr, e.0));
            assert(find_key(m, e.0) == -1);
            assert(merge_entries(base, over) == m.push(e));
            assert(fresh_over(base, over) == fr.push(e));
            assert forall|j: int| 0 <= j < base.len() implies (#[trigger] override_base(
                base,
                over,
            )[j]) == ob[j] by {
                assert(base[j].0 != e.0);
            }
            assert(m.push(e) =~= override_base(base, over) + fresh_over(base, over));
        }
    }
}

/// When the two sides share no key, overlaying is plain concatenation:
/// the defaults first, unchanged, then the overriding side, unchanged.
pub proof fn lemma_merge_disjoint(base: Seq<EntryView>, over: Seq<EntryView>)
    requires
        distinct_keys(base),
        distinct_keys(over),
        forall|k: Seq<char>| has_key(base, k) ==> !has_key(over, k),
    ensures
        merge_entries(base, over) == base + over,
    decreases over.len(),
{
    lemma_merge_shape(base, over);
    assert(override_base(base, over) =~= base) by {
        assert forall|i: int| 0 <= i < base.len() implies find_key(
            over,
            (#[trigger] base[i]).0,
        ) < 0 by {
            assert(has_key(base, base[i].0));
            lemma_find_key_props(over, base[i].0);
        }
    }
    assert(fresh_over(base, over) =~= over) by {
        lemma_freshh_eq(base, over);
    }
}

/// An entry explicitly mapped to no value still counts as a conflicting
/// key in a merge — the suppression wins over the default at that key, and
/// the suppressed entry renders nothing — whereas a key absent from the
/// overriding side lets the default's value show through.
pub proof fn lemma_none_vs_absent(base: Seq<EntryView>, over: Seq<EntryView>, k: Seq<char>)
    requires
        distinct_keys(over),
    ensures
        value_at(over, k) == Some(None::<Seq<char>>) ==> value_at(merge_entries(base, over), k)
            == Some(None::<Seq<char>>),
        !has_key(over, k) ==> value_at(merge_entries(base, over), k) == value_at(base, k),
        entry_text((k, None::<Seq<char>>)) == Seq::<char>::empty(),
{
    lemma_merge_lookup(base, over, k);
    lemma_find_key_props(over, k);
}

proof fn lemma_fresh_eq_helper(base: Seq<EntryView>, over: Seq<EntryView>)
    requires
        forall|i: int| 0 <= i < over.len() ==> !has_key(base, (#[trigger] over[i]).0),
    ensures
        fresh_over(base, over) == over,
    decreases over.len(),
{
    if over.len() == 0 {
        assert(fresh_over(base, over) =~= over);
    } else {
        let o = over.drop_last();
        assert(forall|i: int| 0 <= i < o.len() ==> #[trigger] o[i] == over[i]);
        lemma_fresh_eq_helper(base, o);
        assert(!has_key(base, over.last().0));
        assert(fresh_over(base, over) =~= over);
    }
}

proof fn lemma_freshh_eq(base: Seq<EntryView>, over: Seq<EntryView>)
    requires
        forall|k: Seq<char>| has_key(base, k) ==> !has_key(over, k),
    ensures
        fresh_over(base, over) == over,
{
    assert forall|i: int| 0 <= i < over.len() implies !has_key(base, (#[trigger] over[i]).0) by {
        if has_key(base, over[i].0) {
            assert(has_key(over, over[i].0));
        }
    }
    lemma_fresh_eq_helper(base, over);
}

} // verus!
