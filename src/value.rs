//! The structured value a decoder produces, and its mathematical model.

use vstd::prelude::*;

verus! {

/// A decoded configuration value.
#[derive(Debug, PartialEq, Eq)]
pub enum ConfigValue {
    Str(String),
    Int(isize),
    Array(Vec<String>),
    /// Key/value entries; a well-formed value repeats no key.
    Object(Vec<(String, String)>),
}

/// The model of a `ConfigValue`.
pub enum ValueView {
    Str(Seq<char>),
    Int(int),
    Array(Seq<Seq<char>>),
    Object(Map<Seq<char>, Seq<char>>),
}

/// The map that a list of entries describes; a later entry replaces an earlier
/// one with the same key.
pub open spec fn entries_map(e: Seq<(Seq<char>, Seq<char>)>) -> Map<Seq<char>, Seq<char>>
    decreases e.len(),
{
    if e.len() == 0 {
        Map::empty()
    } else {
        entries_map(e.drop_last()).insert(e.last().0, e.last().1)
    }
}

/// No two entries share a key.
pub open spec fn distinct_keys(e: Seq<(Seq<char>, Seq<char>)>) -> bool {
    forall|i: int, j: int| 0 <= i < j < e.len() ==> e[i].0 != e[j].0
}

impl View for ConfigValue {
    type V = ValueView;

    open spec fn view(&self) -> ValueView {
        match self {
            ConfigValue::Str(s) => ValueView::Str(s@),
            ConfigValue::Int(i) => ValueView::Int(*i as int),
            ConfigValue::Array(v) => ValueView::Array(v.deep_view()),
            ConfigValue::Object(e) => ValueView::Object(entries_map(e.deep_view())),
        }
    }
}

impl ConfigValue {
    /// An object value repeats no key.
    pub open spec fn wf(&self) -> bool {
        match self {
            ConfigValue::Object(e) => distinct_keys(e.deep_view()),
            _ => true,
        }
    }
}

/// With distinct keys, every entry is in the map under its key, and the map
/// holds nothing else.
pub proof fn lemma_entries_map(e: Seq<(Seq<char>, Seq<char>)>)
    requires
        distinct_keys(e),
    ensures
        forall|i: int| 0 <= i < e.len() ==> #[trigger] entries_map(e).contains_key(e[i].0) && entries_map(e)[e[i].0] == e[i].1,
        forall|k: Seq<char>| #[trigger] entries_map(e).contains_key(k) ==> exists|i: int| 0 <= i < e.len() && e[i].0 == k,
    decreases e.len(),
{
    if e.len() > 0 {
        let t = e.drop_last();
        assert(distinct_keys(t)) by {
            assert forall|a: int, b: int| 0 <= a < b < t.len() implies t[a].0 != t[b].0 by {
                assert(t[a] == e[a] && t[b] == e[b]);
            }
        }
        lemma_entries_map(t);
        assert forall|i: int| 0 <= i < e.len() implies #[trigger] entries_map(e).contains_key(e[i].0) && entries_map(e)[e[i].0] == e[i].1 by {
            assert(entries_map(e) == entries_map(t).insert(e.last().0, e.last().1));
            if i < e.len() - 1 {
                assert(t[i] == e[i]);
                assert(entries_map(t).contains_key(t[i].0));
                assert(e[i].0 != e.last().0);
            }
        }
        assert forall|k: Seq<char>| #[trigger] entries_map(e).contains_key(k) implies exists|i: int| 0 <= i < e.len() && e[i].0 == k by {
            if k != e.last().0 {
                assert(entries_map(t).contains_key(k));
                let i = choose|i: int| 0 <= i < t.len() && t[i].0 == k;
                assert(e[i] == t[i]);
            } else {
                assert(e[e.len() - 1].0 == k);
            }
        }
    }
}

} // verus!
