//! The scenario configuration that the logic reads: manifest, table paths,
//! panel and prompt rows, and locale tables.

use vstd::hash_map::StringHashMap;
use vstd::prelude::*;

verus! {

/// The texts of one locale, by key.
pub struct LocaleTable {
    pub locale: String,
    pub entries: StringHashMap<String>,
}

/// The map that `(key, text)` pairs give when inserted in order.
pub open spec fn pairs_map(pairs: Seq<(String, String)>) -> Map<Seq<char>, Seq<char>>
    decreases pairs.len(),
{
    if pairs.len() == 0 {
        Map::empty()
    } else {
        pairs_map(pairs.drop_last()).insert(pairs.last().0@, pairs.last().1@)
    }
}

/// The map that locale tables give when inserted by locale name in order.
pub open spec fn tables_map(tables: Seq<LocaleTable>) -> Map<Seq<char>, LocaleTable>
    decreases tables.len(),
{
    if tables.len() == 0 {
        Map::empty()
    } else {
        tables_map(tables.drop_last()).insert(tables.last().locale@, tables.last())
    }
}

impl LocaleTable {
    /// The texts by key, as character sequences.
    pub open spec fn texts(&self) -> Map<Seq<char>, Seq<char>> {
        self.entries@.map_values(|s: String| s@)
    }

    /// The table of `locale` holding the `(key, text)` pairs, a later pair
    /// replacing an earlier one with the same key.
    pub fn from_entries(locale: String, entries: Vec<(String, String)>) -> (t: Self)
        ensures
            t.locale@ == locale@,
            t.texts() == pairs_map(entries@),
    {
        let mut map: StringHashMap<String> = StringHashMap::new();
        let mut i: usize = 0;
        assert(map@.map_values(|s: String| s@) =~= pairs_map(entries@.take(0)));
        while i < entries.len()
            invariant
                i <= entries@.len(),
                map@.map_values(|s: String| s@) == pairs_map(entries@.take(i as int)),
            decreases entries.len() - i,
        {
            assert(entries@.take(i + 1).drop_last() =~= entries@.take(i as int));
            let ghost before = map@;
            map.insert(entries[i].0.clone(), entries[i].1.clone());
            assert(map@.map_values(|s: String| s@) =~= before.map_values(|s: String| s@).insert(
                entries@[i as int].0@,
                entries@[i as int].1@,
            ));
            i += 1;
        }
        assert(entries@.take(entries@.len() as int) =~= entries@);
        LocaleTable { locale, entries: map }
    }
}

/// The locale tables by locale name, a later table replacing an earlier one
/// of the same locale.
pub fn locales_by_name(tables: Vec<LocaleTable>) -> (m: StringHashMap<LocaleTable>)
    ensures
        m@ == tables_map(tables@),
{
    let mut map: StringHashMap<LocaleTable> = StringHashMap::new();
    let mut rest = tables;
    let ghost all = rest@;
    let mut k: usize = 0;
    let n = rest.len();
    assert(map@ =~= tables_map(all.take(0)));
    assert(all.skip(0) =~= all);
    while k < n
        invariant
            k <= n == all.len(),
            rest@ == all.skip(k as int),
            map@ == tables_map(all.take(k as int)),
        decreases n - k,
    {
        let t = rest.remove(0);
        assert(t == all[k as int]);
        assert(rest@ =~= all.skip(k + 1));
        assert(all.take(k + 1).drop_last() =~= all.take(k as int));
        let name = t.locale.clone();
        map.insert(name, t);
        k += 1;
    }
    assert(all.take(n as int) =~= all);
    map
}


/// Where, relative to the scenario root, each table lives.
#[derive(Debug, Clone, PartialEq, Eq)]
pub struct TablePaths {
    pub stats: String,
    pub resources: String,
    pub actions: String,
    pub events: String,
    pub event_weights: Option<String>,
    pub balance: String,
    pub panels: String,
    pub prompts: Option<String>,
}

/// The scenario manifest (`scenario.toml`).
#[derive(Debug, Clone, PartialEq, Eq)]
pub struct Manifest {
    pub id: String,
    pub version: String,
    pub default_locale: String,
    pub entry: String,
    pub tables: TablePaths,
    /// Locale name and the path of its table, one entry per locale.
    pub locales: Vec<(String, String)>,
}

/// One observer panel.
#[derive(Debug, Clone, PartialEq, Eq)]
pub struct PanelRow {
    pub id: String,
    pub title_key: String,
    pub level: u8,
    pub sort: i32,
    pub visible: bool,
}

/// One prompt template.
#[derive(Debug, Clone, PartialEq, Eq)]
pub struct PromptRow {
    pub id: String,
    pub template_key: String,
    pub variables: String,
}

} // verus!
