//! The document tree: a small structured-text value model.
//!
//! A parsed configuration document is a tree of scalars (booleans, unsigned
//! integers, decimal literals, text), lists and mappings.  Mappings keep
//! their entries in document order; lookup takes the first entry whose key
//! matches.

use vstd::prelude::*;

verus! {

broadcast use vstd::std_specs::vec::group_vec_axioms;

/// A decimal literal such as `1.0` or `2.05`, kept exactly as written:
/// `whole` is the part before the dot, `frac` the digits after it read as a
/// number, and `frac_digits` how many digits were written after the dot
/// (so leading zeros of the fraction are preserved).
#[derive(Clone, Copy, Debug, PartialEq, Eq, Structural)]
pub struct DecimalLit {
    pub whole: u64,
    pub frac: u64,
    pub frac_digits: u64,
}

/// One key/value entry of a mapping.
#[derive(Debug)]
pub struct Entry {
    pub key: String,
    pub value: Yaml,
}

/// A node of a parsed document.
#[derive(Debug)]
pub enum Yaml {
    Boolean(bool),
    Unsigned(u64),
    Decimal(DecimalLit),
    Text(String),
    List(Vec<Yaml>),
    Mapping(Vec<Entry>),
}

/// Mathematical model of an `Entry`.
pub struct EntryView {
    pub key: Seq<char>,
    pub value: YamlView,
}

/// Mathematical model of a `Yaml` node.
pub enum YamlView {
    Boolean(bool),
    Unsigned(u64),
    Decimal(DecimalLit),
    Text(Seq<char>),
    List(Seq<YamlView>),
    Mapping(Seq<EntryView>),
}

/// The model of a node.
pub open spec fn yaml_view(y: Yaml) -> YamlView
    decreases y,
{
    match y {
        Yaml::Boolean(b) => YamlView::Boolean(b),
        Yaml::Unsigned(u) => YamlView::Unsigned(u),
        Yaml::Decimal(d) => YamlView::Decimal(d),
        Yaml::Text(s) => YamlView::Text(s@),
        Yaml::List(items) => {
            proof {
                assert(decreases_to!(items => items@));
            }
            YamlView::List(list_view(items@))
        },
        Yaml::Mapping(entries) => {
            proof {
                assert(decreases_to!(entries => entries@));
            }
            YamlView::Mapping(mapping_view(entries@))
        },
    }
}

/// The models of a list's items, in order.
pub open spec fn list_view(items: Seq<Yaml>) -> Seq<YamlView>
    decreases items,
{
    if items.len() == 0 {
        Seq::empty()
    } else {
        proof {
            assert(decreases_to!(items => items.drop_last()));
        }
        list_view(items.drop_last()).push(yaml_view(items.last()))
    }
}

/// The models of a mapping's entries, in document order.
pub open spec fn mapping_view(entries: Seq<Entry>) -> Seq<EntryView>
    decreases entries,
{
    if entries.len() == 0 {
        Seq::empty()
    } else {
        proof {
            assert(decreases_to!(entries => entries.drop_last()));
        }
        mapping_view(entries.drop_last()).push(entry_view(entries.last()))
    }
}

/// The model of one mapping entry.
pub open spec fn entry_view(e: Entry) -> EntryView
    decreases e,
{
    EntryView { key: e.key@, value: yaml_view(e.value) }
}

impl View for Yaml {
    type V = YamlView;

    open spec fn view(&self) -> YamlView {
        yaml_view(*self)
    }
}

impl View for Entry {
    type V = EntryView;

    open spec fn view(&self) -> EntryView {
        entry_view(*self)
    }
}

/// `list_view` maps the items one for one.
pub proof fn lemma_list_view(items: Seq<Yaml>)
    ensures
        list_view(items).len() == items.len(),
        forall|i: int| 0 <= i < items.len() ==> #[trigger] list_view(items)[i] == items[i]@,
    decreases items.len(),
{
    if items.len() > 0 {
        lemma_list_view(items.drop_last());
    }
}

/// `mapping_view` maps the entries one for one.
pub proof fn lemma_mapping_view(entries: Seq<Entry>)
    ensures
        mapping_view(entries).len() == entries.len(),
        forall|i: int|
            0 <= i < entries.len() ==> #[trigger] mapping_view(entries)[i] == entries[i]@,
    decreases entries.len(),
{
    if entries.len() > 0 {
        lemma_mapping_view(entries.drop_last());
    }
}

/// The value of the first entry whose key is `key`, if any.
pub open spec fn map_get(entries: Seq<EntryView>, key: Seq<char>) -> Option<YamlView>
    decreases entries.len(),
{
    if entries.len() == 0 {
        None
    } else if entries[0].key == key {
        Some(entries[0].value)
    } else {
        map_get(entries.drop_first(), key)
    }
}

/// `map_get` finds the entry at `i` when no earlier entry has its key.
pub proof fn lemma_map_get_found(entries: Seq<EntryView>, key: Seq<char>, i: int)
    requires
        0 <= i < entries.len(),
        entries[i].key == key,
        forall|j: int| 0 <= j < i ==> entries[j].key != key,
    ensures
        map_get(entries, key) == Some(entries[i].value),
    decreases i,
{
    if i > 0 {
        lemma_map_get_found(entries.drop_first(), key, i - 1);
    }
}

/// First-match lookup in a mapping's entry list.
pub fn lookup<'a>(entries: &'a Vec<Entry>, key: &str) -> (r: Option<&'a Yaml>)
    ensures
        match r {
            Some(v) => map_get(mapping_view(entries@), key@) == Some(v@),
            None => map_get(mapping_view(entries@), key@) is None,
        },
{
    let ghost m = mapping_view(entries@);
    proof {
        lemma_mapping_view(entries@);
        assert(m.skip(0) =~= m);
    }
    let key_string: String = key.to_owned();
    let n = entries.len();
    for i in 0..n
        invariant
            n == entries.len(),
            m == mapping_view(entries@),
            m.len() == n,
            key_string@ == key@,
            forall|j: int| 0 <= j < n ==> #[trigger] m[j] == entries@[j]@,
            map_get(m, key@) == map_get(m.skip(i as int), key@),
    {
        proof {
            assert(m.skip(i as int)[0] == m[i as int]);
        }
        let hit = <String as PartialEq>::eq(&entries[i].key, &key_string);
        proof {
            assert(m.skip(i as int).drop_first() =~= m.skip(i + 1));
        }
        if hit {
            return Some(&entries[i].value);
        }
    }
    proof {
        assert(m.skip(n as int).len() == 0);
    }
    None
}

} // verus!
