use vstd::prelude::*;

verus! {

/// `serde_json::Value`, a parsed JSON document, carried as an opaque value.
#[verifier::external_type_specification]
#[verifier::external_body]
pub struct ExJsonValue(serde_json::Value);

/// `serde_json::Error`, the error of a failed parse.
#[verifier::external_type_specification]
#[verifier::external_body]
pub struct ExJsonError(serde_json::Error);

/// The JSON document that `serde_json` reads from `text`, if it is one.
pub uninterp spec fn parsed_json(text: Seq<char>) -> Option<serde_json::Value>;

/// The value that a JSON pointer designates in a document.
pub uninterp spec fn json_at(doc: serde_json::Value, pointer: Seq<char>) -> Option<serde_json::Value>;

/// The elements of a JSON array.
pub uninterp spec fn json_items(v: serde_json::Value) -> Option<Seq<serde_json::Value>>;

/// A JSON number as an unsigned 64-bit integer, where it is one.
pub uninterp spec fn json_u64(v: serde_json::Value) -> Option<u64>;

/// The characters of a JSON string.
pub uninterp spec fn json_text(v: serde_json::Value) -> Option<Seq<char>>;

/// Relies on `serde_json::from_str` into a `Value`: the result depends on the
/// text alone.
#[verifier::external_body]
fn parse_json(text: &str) -> (r: Result<serde_json::Value, serde_json::Error>)
    ensures
        match r {
            Ok(v) => parsed_json(text@) == Some(v),
            Err(_) => parsed_json(text@) is None,
        },
{
    serde_json::from_str::<serde_json::Value>(text)
}

/// Relies on `Value::pointer`: it looks a value up by a JSON pointer.
pub assume_specification<'a>[ serde_json::Value::pointer ](
    v: &'a serde_json::Value,
    pointer: &str,
) -> (r: Option<&'a serde_json::Value>)
    ensures
        match r {
            Some(x) => json_at(*v, pointer@) == Some(*x),
            None => json_at(*v, pointer@) is None,
        },
;

/// Relies on `Value::as_array`: the elements of an array, `None` for any
/// other value.
pub assume_specification[ serde_json::Value::as_array ](v: &serde_json::Value) -> (r: Option<
    &Vec<serde_json::Value>,
>)
    ensures
        match r {
            Some(a) => json_items(*v) == Some(a@),
            None => json_items(*v) is None,
        },
;

/// Relies on `Value::as_u64`: a non-negative integer that fits in 64 bits,
/// `None` for any other value.
pub assume_specification[ serde_json::Value::as_u64 ](v: &serde_json::Value) -> (r: Option<u64>)
    ensures
        r == json_u64(*v),
;

/// Relies on `Value::as_str`: the contents of a string, `None` for any other
/// value.
pub assume_specification[ serde_json::Value::as_str ](v: &serde_json::Value) -> (r: Option<&str>)
    ensures
        match r {
            Some(s) => json_text(*v) == Some(s@),
            None => json_text(*v) is None,
        },
;

/// One app of the catalog: its id and its display name.
pub struct CatalogEntry {
    pub appid: u32,
    pub name: String,
}

impl View for CatalogEntry {
    type V = (u32, Seq<char>);

    open spec fn view(&self) -> (u32, Seq<char>) {
        (self.appid, self.name@)
    }
}

/// Why a catalog could not be read.
#[derive(Clone, Copy, Debug, PartialEq, Eq, Structural)]
pub enum CatalogError {
    /// The text is not a JSON document.
    NotJson,
    /// The document has no array at `applist.apps`.
    MissingAppList,
    /// The app at this position of the list lacks an id that fits in 32
    /// bits, or a name.
    BadEntry { index: usize },
}

/// The app that a catalog element describes: a numeric `appid` that fits in
/// 32 bits and a string `name`.
pub open spec fn entry_of(item: serde_json::Value) -> Option<(u32, Seq<char>)> {
    let id = match json_at(item, "/appid"@) {
        Some(v) => json_u64(v),
        None => None,
    };
    let name = match json_at(item, "/name"@) {
        Some(v) => json_text(v),
        None => None,
    };
    match (id, name) {
        (Some(n), Some(s)) => if n <= u32::MAX {
            Some((n as u32, s))
        } else {
            None
        },
        _ => None,
    }
}

/// The elements of the app list of a catalog document.
pub open spec fn app_list(doc: serde_json::Value) -> Option<Seq<serde_json::Value>> {
    match json_at(doc, "/applist/apps"@) {
        Some(apps) => json_items(apps),
        None => None,
    }
}

/// What reading `items` as catalog entries gives: each entry in order, or the
/// first element that is no entry.
pub open spec fn entries_of(items: Seq<serde_json::Value>) -> Result<Seq<(u32, Seq<char>)>, CatalogError>
    decreases items.len(),
{
    if items.len() == 0 {
        Ok(Seq::empty())
    } else {
        match entries_of(items.drop_last()) {
            Err(e) => Err(e),
            Ok(s) => match entry_of(items.last()) {
                Some(e) => Ok(s.push(e)),
                None => Err(CatalogError::BadEntry { index: (items.len() - 1) as usize }),
            },
        }
    }
}

/// What reading a catalog document gives.
pub open spec fn catalog_of_doc(doc: serde_json::Value) -> Result<Seq<(u32, Seq<char>)>, CatalogError> {
    match app_list(doc) {
        Some(items) => entries_of(items),
        None => Err(CatalogError::MissingAppList),
    }
}

/// What reading a catalog from its text gives.
pub open spec fn catalog_of_text(text: Seq<char>) -> Result<Seq<(u32, Seq<char>)>, CatalogError> {
    match parsed_json(text) {
        Some(doc) => catalog_of_doc(doc),
        None => Err(CatalogError::NotJson),
    }
}

/// The views of a list of entries.
pub open spec fn entry_views(entries: Seq<CatalogEntry>) -> Seq<(u32, Seq<char>)> {
    entries.map_values(|e: CatalogEntry| e@)
}

/// Once a prefix of the list holds an element that is no entry, reading the
/// whole list fails on that element.
proof fn lemma_entries_error_prefix(items: Seq<serde_json::Value>, k: int)
    requires
        0 <= k <= items.len(),
        entries_of(items.subrange(0, k)) is Err,
    ensures
        entries_of(items) == entries_of(items.subrange(0, k)),
    decreases items.len() - k,
{
    if k == items.len() {
        assert(items.subrange(0, k) =~= items);
    } else {
        assert(items.drop_last().subrange(0, k) =~= items.subrange(0, k));
        lemma_entries_error_prefix(items.drop_last(), k);
    }
}

/// Reads one catalog element as an entry.
pub fn read_entry(item: &serde_json::Value) -> (r: Option<CatalogEntry>)
    ensures
        match r {
            Some(e) => entry_of(*item) == Some(e@),
            None => entry_of(*item) is None,
        },
{
    let id = match item.pointer("/appid") {
        Some(v) => v.as_u64(),
        None => None,
    };
    let name = match item.pointer("/name") {
        Some(v) => v.as_str(),
        None => None,
    };
    match (id, name) {
        (Some(n), Some(s)) => {
            if n <= u32::MAX as u64 {
                Some(CatalogEntry { appid: n as u32, name: s.to_string() })
            } else {
                None
            }
        },
        _ => None,
    }
}

/// Reads the entries of a catalog document, in the order of its app list.
pub fn read_catalog(doc: &serde_json::Value) -> (r: Result<Vec<CatalogEntry>, CatalogError>)
    ensures
        match r {
            Ok(entries) => catalog_of_doc(*doc) == Ok::<_, CatalogError>(entry_views(entries@)),
            Err(e) => catalog_of_doc(*doc) == Err::<Seq<(u32, Seq<char>)>, _>(e),
        },
{
    let apps = match doc.pointer("/applist/apps") {
        Some(a) => a,
        None => return Err(CatalogError::MissingAppList),
    };
    let items = match apps.as_array() {
        Some(items) => items,
        None => return Err(CatalogError::MissingAppList),
    };
    let mut entries: Vec<CatalogEntry> = Vec::new();
    let mut i: usize = 0;
    assert(items@.subrange(0, 0) =~= Seq::<serde_json::Value>::empty());
    assert(entry_views(entries@) =~= Seq::<(u32, Seq<char>)>::empty());
    while i < items.len()
        invariant
            app_list(*doc) == Some(items@),
            i <= items@.len(),
            entries_of(items@.subrange(0, i as int)) == Ok::<_, CatalogError>(
                entry_views(entries@),
            ),
        decreases items@.len() - i,
    {
        let ghost before = items@.subrange(0, i as int);
        let ghost after = items@.subrange(0, i + 1);
        assert(after.drop_last() =~= before);
        match read_entry(&items[i]) {
            Some(e) => {
                let ghost prev = entries@;
                let ghost ev = e@;
                entries.push(e);
                assert(entry_views(entries@) =~= entry_views(prev).push(ev));
            },
            None => {
                proof {
                    lemma_entries_error_prefix(items@, i + 1);
                }
                return Err(CatalogError::BadEntry { index: i });
            },
        }
        i = i + 1;
    }
    assert(items@.subrange(0, items@.len() as int) =~= items@);
    Ok(entries)
}

/// Reads a catalog from its text.
pub fn parse_catalog(text: &str) -> (r: Result<Vec<CatalogEntry>, CatalogError>)
    ensures
        match r {
            Ok(entries) => catalog_of_text(text@) == Ok::<_, CatalogError>(entry_views(entries@)),
            Err(e) => catalog_of_text(text@) == Err::<Seq<(u32, Seq<char>)>, _>(e),
        },
{
    match parse_json(text) {
        Ok(doc) => read_catalog(&doc),
        Err(_) => Err(CatalogError::NotJson),
    }
}

} // verus!
