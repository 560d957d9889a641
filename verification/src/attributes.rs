//! Free-form attribute maps: an optional, ordered key/value map with the
//! same override-wins-over-default cascade as the structured style.  The
//! entries live in a vector whose keys are kept unique.

use vstd::prelude::*;
use crate::cascade::EntryView;
use crate::cascade::distinct_keys;
use crate::cascade::find_key;
use crate::cascade::insert_entry;
use crate::cascade::lemma_find_key_props;
use crate::cascade::lemma_insert_distinct;
use crate::cascade::merge_entries;
use crate::cascade::value_at;
use crate::style::clone_opt_string;
use crate::text::str_eq;

verus! {

/// The position of the entry holding `key`, if any.
fn attrs_find(entries: &Vec<(String, Option<String>)>, key: &str) -> (r: Option<usize>)
    ensures
        match r {
            Some(j) => j == find_key(entries.deep_view(), key@),
            None => find_key(entries.deep_view(), key@) == -1,
        },
{
    let ghost s = entries.deep_view();
    proof {
        lemma_find_key_props(s, key@);
    }
    let n = entries.len();
    let mut j: usize = 0;
    while j < n
        invariant
            j <= n,
            n == entries.len(),
            s == entries.deep_view(),
            s.len() == n,
            forall|t: int| 0 <= t < j ==> (#[trigger] s[t]).0 != key@,
        decreases n - j,
    {
        if str_eq(entries[j].0.as_str(), key) {
            proof {
                lemma_find_key_props(s, key@);
                assert(s[j as int].0 == key@);
                assert(find_key(s, key@) >= 0);
                if find_key(s, key@) < j {
                    assert(s[find_key(s, key@)].0 == key@);
                }
                if find_key(s, key@) > j {
                    assert(s[j as int].0 != key@);
                }
            }
            return Some(j);
        }
        j += 1;
    }
    proof {
        if find_key(s, key@) >= 0 {
            assert(s[find_key(s, key@)].0 == key@);
        }
    }
    None
}

/// Inserts into the entry vector with the cascade's insertion rule: a key
/// already present keeps its place and only its value changes; a new key
/// is appended last.
fn attrs_insert(acc: &mut Vec<(String, Option<String>)>, key: String, value: Option<String>)
    ensures
        final(acc).deep_view() == insert_entry(old(acc).deep_view(), key@, value.deep_view()),
{
    let ghost s0 = acc.deep_view();
    proof {
        lemma_find_key_props(s0, key@);
    }
    match attrs_find(acc, key.as_str()) {
        Some(j) => {
            acc.remove(j);
            acc.insert(j, (key, value));
            proof {
                assert(final(acc).deep_view() =~= s0.update(j as int, (key@, value.deep_view())));
            }
        },
        None => {
            acc.push((key, value));
            proof {
                assert(final(acc).deep_view() =~= s0.push((key@, value.deep_view())));
            }
        },
    }
}

/// Overlays `over`'s entries onto `defaults`, first to last.
fn attrs_merge(defaults: Vec<(String, Option<String>)>, over: &Vec<(String, Option<String>)>) -> (r:
    Vec<(String, Option<String>)>)
    requires
        distinct_keys(defaults.deep_view()),
    ensures
        r.deep_view() == merge_entries(defaults.deep_view(), over.deep_view()),
        distinct_keys(r.deep_view()),
{
    let ghost d = defaults.deep_view();
    let ghost o = over.deep_view();
    let n = over.len();
    let mut acc = defaults;
    let mut i: usize = 0;
    proof {
        assert(o.take(0) =~= Seq::<EntryView>::empty());
    }
    while i < n
        invariant
            i <= n,
            n == over.len(),
            o == over.deep_view(),
            o.len() == n,
            acc.deep_view() == merge_entries(d, o.take(i as int)),
            distinct_keys(acc.deep_view()),
        decreases n - i,
    {
        let key = over[i].0.clone();
        let value = clone_opt_string(&over[i].1);
        proof {
            lemma_insert_distinct(acc.deep_view(), key@, value.deep_view());
            assert(o.take(i + 1).drop_last() =~= o.take(i as int));
            assert(o.take(i + 1).last() == o[i as int]);
            assert((key@, value.deep_view()) == o[i as int]);
        }
        attrs_insert(&mut acc, key, value);
        i += 1;
    }
    proof {
        assert(o.take(n as int) =~= o);
    }
    acc
}

/// An optional attribute map.  `None` yields to any supplied defaults.
pub struct Attributes(pub Option<Vec<(String, Option<String>)>>);

impl View for Attributes {
    type V = Option<Seq<EntryView>>;

    open spec fn view(&self) -> Option<Seq<EntryView>> {
        match &self.0 {
            Some(entries) => Some(entries.deep_view()),
            None => None,
        }
    }
}

/// Supplying defaults on optional attribute maps: whichever side is present
/// wins alone; two present sides merge key-wise, the overriding side
/// winning on conflicting keys.
pub open spec fn spec_attrs_with_defaults(
    s: Option<Seq<EntryView>>,
    d: Option<Seq<EntryView>>,
) -> Option<Seq<EntryView>> {
    match (s, d) {
        (Some(sv), Some(dv)) => Some(merge_entries(dv, sv)),
        (Some(sv), None) => Some(sv),
        (None, Some(dv)) => Some(dv),
        (None, None) => None,
    }
}

impl Attributes {
    /// A present attribute map holds each key at most once.
    pub open spec fn wf(&self) -> bool {
        match self@ {
            Some(es) => distinct_keys(es),
            None => true,
        }
    }

    /// An attribute map built from the given pairs, first to last; a
    /// repeated key keeps its first position and its last value.
    pub fn from_entries(entries: Vec<(String, Option<String>)>) -> (r: Attributes)
        ensures
            r@ == Some(merge_entries(Seq::<EntryView>::empty(), entries.deep_view())),
            r.wf(),
    {
        let ghost ps = entries.deep_view();
        let empty: Vec<(String, Option<String>)> = Vec::new();
        proof {
            assert(empty.deep_view() =~= Seq::<EntryView>::empty());
        }
        let merged = attrs_merge(empty, &entries);
        Attributes(Some(merged))
    }

    /// Overlays this attribute map onto the supplied defaults.
    pub fn with_defaults(self, defaults: Attributes) -> (r: Attributes)
        requires
            self.wf(),
            defaults.wf(),
        ensures
            r@ == spec_attrs_with_defaults(self@, defaults@),
            r.wf(),
    {
        match (self.0, defaults.0) {
            (Some(entries), Some(d)) => Attributes(Some(attrs_merge(d, &entries))),
            (Some(entries), None) => Attributes(Some(entries)),
            (None, Some(d)) => Attributes(Some(d)),
            (None, None) => Attributes(None),
        }
    }

    /// Hands the entries out as plain pairs, in order; an absent map hands
    /// out nothing.
    pub fn to_custom_attributes(self) -> (r: Vec<(String, Option<String>)>)
        ensures
            r.deep_view() == match self@ {
                Some(es) => es,
                None => Seq::<EntryView>::empty(),
            },
    {
        match self.0 {
            Some(entries) => entries,
            None => {
                let empty: Vec<(String, Option<String>)> = Vec::new();
                proof {
                    assert(empty.deep_view() =~= Seq::<EntryView>::empty());
                }
                empty
            },
        }
    }

    /// The value stored for `key`, if the map is present and holds it.
    pub fn get(&self, key: &str) -> (r: Option<Option<String>>)
        ensures
            r.deep_view() == match self@ {
                Some(es) => value_at(es, key@),
                None => None::<Option<Seq<char>>>,
            },
    {
        match &self.0 {
            Some(entries) => {
                match attrs_find(entries, key) {
                    Some(j) => {
                        proof {
                            lemma_find_key_props(entries.deep_view(), key@);
                        }
                        Some(clone_opt_string(&entries[j].1))
                    },
                    None => None,
                }
            },
            None => None,
        }
    }
}

impl Default for Attributes {
    /// The absent attribute map.
    fn default() -> (r: Attributes)
        ensures
            r@ is None,
    {
        Attributes(None)
    }
}

} // verus!
