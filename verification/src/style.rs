//! The style cascade: a style is either free-form text or a structured,
//! insertion-ordered map of declarations.  `with_defaults` overlays a style
//! onto supplied defaults, the style's own entries winning on conflicting
//! keys; mixed representations fall back to rendering both sides to text
//! and joining them, defaults first.

use vstd::prelude::*;
use vstd::string::StrSliceExecFns;
use vstd::string::StringExecFns;
use crate::cascade::EntryView;
use crate::cascade::distinct_keys;
use crate::cascade::entries_text;
use crate::cascade::entry_text;
use crate::cascade::insert_entry;
use crate::cascade::lemma_insert_distinct;
use crate::cascade::merge_entries;
use crate::cascade::value_at;
use crate::style_map::style_map_entries;
use crate::style_map::style_map_entry_at;
use crate::style_map::style_map_get;
use crate::style_map::style_map_insert;
use crate::style_map::style_map_len;
use crate::style_map::style_map_new;
use indexmap::IndexMap;

verus! {

/// What a style holds: free-form text, or the entries of a structured map.
pub enum InnerStyleView {
    Text(Seq<char>),
    Structured(Seq<EntryView>),
}

/// A style value: free-form text, or a structured declaration map.
pub enum InnerStyle {
    Text(String),
    Structured(IndexMap<String, Option<String>>),
}

impl View for InnerStyle {
    type V = InnerStyleView;

    open spec fn view(&self) -> InnerStyleView {
        match self {
            InnerStyle::Text(s) => InnerStyleView::Text(s@),
            InnerStyle::Structured(m) => InnerStyleView::Structured(style_map_entries(*m)),
        }
    }
}

/// A structured style holds each key at most once.
pub open spec fn inner_wf(v: InnerStyleView) -> bool {
    match v {
        InnerStyleView::Text(_) => true,
        InnerStyleView::Structured(es) => distinct_keys(es),
    }
}

/// What a style renders to: its text verbatim, or its entries rendered
/// `key: value;`, space-joined, entries with absent or empty values skipped.
pub open spec fn inner_text(v: InnerStyleView) -> Seq<char> {
    match v {
        InnerStyleView::Text(t) => t,
        InnerStyleView::Structured(es) => entries_text(es),
    }
}

/// Supplying defaults: two structured sides merge key-wise with the style's
/// own entry winning on a conflicting key; any other pairing renders both
/// sides to text and joins them with a space, defaults first.
pub open spec fn spec_with_defaults(s: InnerStyleView, d: InnerStyleView) -> InnerStyleView {
    match (s, d) {
        (InnerStyleView::Structured(es), InnerStyleView::Structured(ds)) => InnerStyleView::Structured(
            merge_entries(ds, es),
        ),
        _ => InnerStyleView::Text(inner_text(d) + " "@ + inner_text(s)),
    }
}

/// Renders one entry: `key: value;` when a non-empty value is present,
/// the empty string otherwise.
pub fn entry_piece(k: &String, v: &Option<String>) -> (r: String)
    ensures
        r@ == entry_text((k@, v.deep_view())),
{
    match v {
        Some(val) => {
            if val.as_str().unicode_len() > 0 {
                k.clone().concat(": ").concat(val.as_str()).concat(";")
            } else {
                String::new()
            }
        },
        None => String::new(),
    }
}

/// Renders a structured map to text, in entry order.
pub fn structured_to_text(m: &IndexMap<String, Option<String>>) -> (r: String)
    ensures
        r@ == entries_text(style_map_entries(*m)),
{
    let ghost es = style_map_entries(*m);
    let n = style_map_len(m);
    let mut acc = String::new();
    let mut i: usize = 0;
    while i < n
        invariant
            i <= n,
            n == es.len(),
            es == style_map_entries(*m),
            acc@ == entries_text(es.take(i as int)),
        decreases n - i,
    {
        let kv = style_map_entry_at(m, i);
        let piece = entry_piece(&kv.0, &kv.1);
        proof {
            assert(es.take(i + 1).drop_last() =~= es.take(i as int));
            assert(es.take(i + 1).last() == es[i as int]);
            assert((kv.0@, kv.1.deep_view()) == es[i as int]);
        }
        if !piece.as_str().is_empty() {
            if acc.as_str().is_empty() {
                acc = piece;
            } else {
                acc = acc.concat(" ").concat(piece.as_str());
            }
        }
        i += 1;
    }
    proof {
        assert(es.take(n as int) =~= es);
    }
    acc
}

/// Overlays `over`'s entries onto `defaults`, first to last.
pub fn structured_merge(
    defaults: IndexMap<String, Option<String>>,
    over: &IndexMap<String, Option<String>>,
) -> (r: IndexMap<String, Option<String>>)
    requires
        distinct_keys(style_map_entries(defaults)),
    ensures
        style_map_entries(r) == merge_entries(
            style_map_entries(defaults),
            style_map_entries(*over),
        ),
        distinct_keys(style_map_entries(r)),
{
    let ghost d = style_map_entries(defaults);
    let ghost o = style_map_entries(*over);
    let n = style_map_len(over);
    let mut acc = defaults;
    let mut i: usize = 0;
    proof {
        assert(o.take(0) =~= Seq::<EntryView>::empty());
    }
    while i < n
        invariant
            i <= n,
            n == o.len(),
            o == style_map_entries(*over),
            style_map_entries(acc) == merge_entries(d, o.take(i as int)),
            distinct_keys(style_map_entries(acc)),
        decreases n - i,
    {
        let kv = style_map_entry_at(over, i);
        proof {
            lemma_insert_distinct(style_map_entries(acc), kv.0@, kv.1.deep_view());
            assert(o.take(i + 1).drop_last() =~= o.take(i as int));
            assert(o.take(i + 1).last() == o[i as int]);
            assert((kv.0@, kv.1.deep_view()) == o[i as int]);
        }
        style_map_insert(&mut acc, kv.0, kv.1);
        i += 1;
    }
    proof {
        assert(o.take(n as int) =~= o);
    }
    acc
}

impl InnerStyle {
    /// A structured style holds each key at most once.
    pub open spec fn wf(&self) -> bool {
        inner_wf(self@)
    }

    /// Overlays `self` onto the supplied defaults.
    pub fn with_defaults(self, defaults: InnerStyle) -> (r: InnerStyle)
        requires
            self.wf(),
            defaults.wf(),
        ensures
            r@ == spec_with_defaults(self@, defaults@),
            r.wf(),
    {
        match (self, defaults) {
            (InnerStyle::Text(s), InnerStyle::Text(d)) => InnerStyle::Text(
                d.concat(" ").concat(s.as_str()),
            ),
            (InnerStyle::Text(s), InnerStyle::Structured(dm)) => {
                let dt = structured_to_text(&dm);
                InnerStyle::Text(dt.concat(" ").concat(s.as_str()))
            },
            (InnerStyle::Structured(m), InnerStyle::Text(d)) => {
                let mt = structured_to_text(&m);
                InnerStyle::Text(d.concat(" ").concat(mt.as_str()))
            },
            (InnerStyle::Structured(m), InnerStyle::Structured(dm)) => {
                let merged = structured_merge(dm, &m);
                InnerStyle::Structured(merged)
            },
        }
    }

    /// Renders this style to text.
    pub fn to_string(&self) -> (r: String)
        ensures
            r@ == inner_text(self@),
    {
        match self {
            InnerStyle::Text(t) => t.clone(),
            InnerStyle::Structured(m) => structured_to_text(m),
        }
    }
}

/// An optional style: `None` renders to nothing and yields to any default.
pub struct Style(pub Option<InnerStyle>);

impl View for Style {
    type V = Option<InnerStyleView>;

    open spec fn view(&self) -> Option<InnerStyleView> {
        match self.0 {
            Some(inner) => Some(inner@),
            None => None,
        }
    }
}

/// Supplying defaults on optional styles: whichever side is present wins
/// alone; two present sides combine as styles do.
pub open spec fn spec_style_with_defaults(s: Option<InnerStyleView>, d: Option<InnerStyleView>) -> Option<
    InnerStyleView,
> {
    match (s, d) {
        (Some(sv), Some(dv)) => Some(spec_with_defaults(sv, dv)),
        (Some(sv), None) => Some(sv),
        (None, Some(dv)) => Some(dv),
        (None, None) => None,
    }
}

/// What an optional style renders to: nothing when absent.
pub open spec fn spec_style_text(v: Option<InnerStyleView>) -> Seq<char> {
    match v {
        Some(inner) => inner_text(inner),
        None => Seq::<char>::empty(),
    }
}

impl Style {
    /// A present structured style holds each key at most once.
    pub open spec fn wf(&self) -> bool {
        match self@ {
            Some(inner) => inner_wf(inner),
            None => true,
        }
    }

    /// The empty style.
    pub fn new() -> (r: Style)
        ensures
            r@ is None,
            r.wf(),
    {
        Style(None)
    }

    /// A style holding the given free-form text.
    pub fn from_text(s: &str) -> (r: Style)
        ensures
            r@ == Some(InnerStyleView::Text(s@)),
            r.wf(),
    {
        Style(Some(InnerStyle::Text(String::from_str(s))))
    }

    /// A style holding free-form text when one is given.
    pub fn from_opt_text(s: Option<&str>) -> (r: Style)
        ensures
            r@ == match s {
                Some(t) => Some(InnerStyleView::Text(t@)),
                None => None::<InnerStyleView>,
            },
            r.wf(),
    {
        match s {
            Some(t) => Style::from_text(t),
            None => Style(None),
        }
    }

    /// A structured style built from the given pairs, first to last; a
    /// repeated key keeps its first position and its last value.
    pub fn from_entries(entries: Vec<(String, Option<String>)>) -> (r: Style)
        ensures
            r@ == Some(
                InnerStyleView::Structured(
                    merge_entries(Seq::<EntryView>::empty(), entries.deep_view()),
                ),
            ),
            r.wf(),
    {
        let ghost ps = entries.deep_view();
        let mut acc = style_map_new();
        let mut i: usize = 0;
        proof {
            assert(ps.take(0) =~= Seq::<EntryView>::empty());
        }
        while i < entries.len()
            invariant
                i <= entries.len(),
                ps == entries.deep_view(),
                ps.len() == entries.len(),
                style_map_entries(acc) == merge_entries(Seq::<EntryView>::empty(), ps.take(i as int)),
                distinct_keys(style_map_entries(acc)),
            decreases entries.len() - i,
        {
            let kv = &entries[i];
            let key = kv.0.clone();
            let value = clone_opt_string(&kv.1);
            proof {
                lemma_insert_distinct(style_map_entries(acc), key@, value.deep_view());
                assert(ps.take(i + 1).drop_last() =~= ps.take(i as int));
                assert(ps.take(i + 1).last() == ps[i as int]);
                assert((key@, value.deep_view()) == ps[i as int]);
            }
            style_map_insert(&mut acc, key, value);
            i += 1;
        }
        proof {
            assert(ps.take(entries.len() as int) =~= ps);
        }
        Style(Some(InnerStyle::Structured(acc)))
    }

    /// Overlays this style onto the supplied defaults.
    pub fn with_defaults(self, defaults: Style) -> (r: Style)
        requires
            self.wf(),
            defaults.wf(),
        ensures
            r@ == spec_style_with_defaults(self@, defaults@),
            r.wf(),
    {
        match (self.0, defaults.0) {
            (Some(s), Some(d)) => Style(Some(s.with_defaults(d))),
            (Some(s), None) => Style(Some(s)),
            (None, Some(d)) => Style(Some(d)),
            (None, None) => Style(None),
        }
    }

    /// Renders this style to text; an absent style renders to nothing.
    pub fn to_string(&self) -> (r: String)
        ensures
            r@ == spec_style_text(self@),
    {
        match &self.0 {
            Some(inner) => inner.to_string(),
            None => String::new(),
        }
    }

    /// The value stored for `key` in a present structured style: `None`
    /// otherwise.
    pub fn get(&self, key: &str) -> (r: Option<Option<String>>)
        ensures
            r.deep_view() == match self@ {
                Some(InnerStyleView::Structured(es)) => value_at(es, key@),
                _ => None::<Option<Seq<char>>>,
            },
    {
        match &self.0 {
            Some(InnerStyle::Structured(m)) => style_map_get(m, key),
            _ => None,
        }
    }
}

impl Default for Style {
    /// The empty style.
    fn default() -> (r: Style)
        ensures
            r@ is None,
    {
        Style(None)
    }
}

impl From<String> for Style {
    /// A style holding the given free-form text.
    fn from(value: String) -> (r: Style) {
        Style(Some(InnerStyle::Text(value)))
    }
}

impl vstd::std_specs::convert::FromSpecImpl<String> for Style {
    open spec fn obeys_from_spec() -> bool {
        true
    }

    open spec fn from_spec(value: String) -> Style {
        Style(Some(InnerStyle::Text(value)))
    }
}

/// Clones an optional string.
pub fn clone_opt_string(v: &Option<String>) -> (r: Option<String>)
    ensures
        r == *v,
{
    match v {
        Some(s) => Some(s.clone()),
        None => None,
    }
}

} // verus!
