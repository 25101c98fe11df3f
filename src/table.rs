use vstd::prelude::*;

use std::collections::HashMap;

use crate::catalog::{CatalogEntry, entry_views};

verus! {

broadcast use vstd::std_specs::hash::group_hash_axioms;

/// The id reserved for "no app"; it names no real game.
pub const UNKNOWN_APPID: u32 = 0;

/// The name that the reserved id maps to.
pub open spec fn unknown_name() -> Seq<char> {
    "Empty"@
}

/// The table that a list of entries gives: each id maps to the name of the
/// last entry with that id.
pub open spec fn table_of(entries: Seq<(u32, Seq<char>)>) -> Map<u32, Seq<char>>
    decreases entries.len(),
{
    if entries.len() == 0 {
        Map::empty()
    } else {
        table_of(entries.drop_last()).insert(entries.last().0, entries.last().1)
    }
}

/// The lookup table from app id to display name.
pub struct AppTable {
    names: HashMap<u32, String>,
}

impl View for AppTable {
    type V = Map<u32, Seq<char>>;

    closed spec fn view(&self) -> Map<u32, Seq<char>> {
        self.names@.map_values(|s: String| s@)
    }
}

impl AppTable {
    /// Builds the table of a catalog: the entries in order, a later entry
    /// replacing an earlier one with the same id, then the reserved id mapped
    /// to `"Empty"`.
    pub fn from_entries(entries: &Vec<CatalogEntry>) -> (r: AppTable)
        ensures
            r@ == table_of(entry_views(entries@)).insert(UNKNOWN_APPID, unknown_name()),
    {
        let mut names: HashMap<u32, String> = HashMap::new();
        let mut i: usize = 0;
        while i < entries.len()
            invariant
                i <= entries@.len(),
                names@.map_values(|s: String| s@) =~= table_of(
                    entry_views(entries@.subrange(0, i as int)),
                ),
            decreases entries@.len() - i,
        {
            let e = &entries[i];
            let ghost before = entry_views(entries@.subrange(0, i as int));
            assert(entry_views(entries@.subrange(0, i + 1)) =~= before.push(e@));
            assert(entry_views(entries@.subrange(0, i + 1)).drop_last() =~= before);
            names.insert(e.appid, e.name.clone());
            i = i + 1;
        }
        assert(entries@.subrange(0, entries@.len() as int) =~= entries@);
        let empty = String::from_str("Empty");
        proof {
            reveal_strlit("Empty");
        }
        names.insert(UNKNOWN_APPID, empty);
        let r = AppTable { names };
        assert(r@ =~= table_of(entry_views(entries@)).insert(UNKNOWN_APPID, unknown_name()));
        r
    }

    /// The name of app `id`, if the table has it.
    pub fn name_of(&self, id: u32) -> (r: Option<&String>)
        ensures
            match r {
                Some(s) => self@.contains_key(id) && self@[id] == s@,
                None => !self@.contains_key(id),
            },
    {
        self.names.get(&id)
    }

    /// The number of ids in the table.
    pub fn len(&self) -> (r: usize)
        ensures
            r == self@.len(),
    {
        assert(self@.dom() =~= self.names@.dom());
        self.names.len()
    }
}

} // verus!
