use vstd::prelude::*;

use crate::sanitize::{sanitize_name, sanitized};
use crate::table::{AppTable, UNKNOWN_APPID};

verus! {

/// What a screenshot folder's app id resolves to.
pub enum Resolution {
    /// The table does not know the id: the folder is skipped.
    Unknown,
    /// The reserved id: announced under its name, nothing is copied.
    Reserved { name: String },
    /// A game: its screenshots go to the directory `name` under the
    /// destination root.
    Game { name: String },
}

/// Resolves the app id of a screenshot folder through the table. A known
/// id gets its name sanitized for use as a directory name.
pub fn resolve(table: &AppTable, id: u32) -> (r: Resolution)
    ensures
        match r {
            Resolution::Unknown => !table@.contains_key(id),
            Resolution::Reserved { name } => id == UNKNOWN_APPID && table@.contains_key(id)
                && name@ == sanitized(table@[id]),
            Resolution::Game { name } => id != UNKNOWN_APPID && table@.contains_key(id)
                && name@ == sanitized(table@[id]),
        },
{
    match table.name_of(id) {
        None => Resolution::Unknown,
        Some(raw) => {
            let name = sanitize_name(raw.as_str());
            if id == UNKNOWN_APPID {
                Resolution::Reserved { name }
            } else {
                Resolution::Game { name }
            }
        },
    }
}

/// The character sequences of a list of names.
pub open spec fn name_views(names: Seq<String>) -> Seq<Seq<char>> {
    names.map_values(|s: String| s@)
}

/// The images that a pass still has to copy: those, in order, whose file
/// name is not present in the destination directory.
pub open spec fn pending(images: Seq<Seq<char>>, present: Set<Seq<char>>) -> Seq<Seq<char>>
    decreases images.len(),
{
    if images.len() == 0 {
        images
    } else if present.contains(images.last()) {
        pending(images.drop_last(), present)
    } else {
        pending(images.drop_last(), present).push(images.last())
    }
}

/// The file names in a destination directory after a pass that copied
/// every pending image.
pub open spec fn after_pass(images: Seq<Seq<char>>, present: Set<Seq<char>>) -> Set<Seq<char>> {
    present + pending(images, present).to_set()
}

/// Whether `names` holds `name`.
fn holds_name(names: &Vec<String>, name: &String) -> (r: bool)
    ensures
        r == name_views(names@).contains(name@),
{
    let mut i: usize = 0;
    while i < names.len()
        invariant
            i <= names@.len(),
            forall|k: int| 0 <= k < i ==> names@[k]@ != name@,
        decreases names@.len() - i,
    {
        if names[i] == *name {
            assert(name_views(names@)[i as int] == name@);
            return true;
        }
        i = i + 1;
    }
    assert forall|k: int| 0 <= k < name_views(names@).len() implies name_views(names@)[k]
        != name@ by {
        assert(name_views(names@)[k] == names@[k]@);
    }
    false
}

/// The file names of `images` that are not yet in the destination directory,
/// whose entries are `present`. A file already present is never copied
/// again.
pub fn pending_copies(images: &Vec<String>, present: &Vec<String>) -> (r: Vec<String>)
    ensures
        name_views(r@) == pending(name_views(images@), name_views(present@).to_set()),
{
    let ghost present_set = name_views(present@).to_set();
    let mut out: Vec<String> = Vec::new();
    let mut i: usize = 0;
    while i < images.len()
        invariant
            i <= images@.len(),
            present_set == name_views(present@).to_set(),
            name_views(out@) == pending(name_views(images@.subrange(0, i as int)), present_set),
        decreases images@.len() - i,
    {
        let ghost before = name_views(images@.subrange(0, i as int));
        let ghost after = name_views(images@.subrange(0, i + 1));
        assert(after.drop_last() =~= before);
        assert(after.last() == images@[i as int]@);
        let ghost prev = out@;
        if !holds_name(present, &images[i]) {
            out.push(images[i].clone());
            assert(name_views(out@) =~= name_views(prev).push(images@[i as int]@));
        }
        i = i + 1;
    }
    assert(images@.subrange(0, images@.len() as int) =~= images@);
    out
}

/// Every image is present after a pass, or was pending in it.
proof fn lemma_image_present_or_pending(images: Seq<Seq<char>>, present: Set<Seq<char>>, k: int)
    requires
        0 <= k < images.len(),
    ensures
        present.contains(images[k]) || pending(images, present).contains(images[k]),
    decreases images.len(),
{
    let head = pending(images.drop_last(), present);
    if k < images.len() - 1 {
        lemma_image_present_or_pending(images.drop_last(), present, k);
        if !present.contains(images[k]) {
            let j = choose|j: int| 0 <= j < head.len() && head[j] == images[k];
            if !present.contains(images.last()) {
                assert(head.push(images.last())[j] == images[k]);
            }
        }
    } else if !present.contains(images.last()) {
        assert(head.push(images.last())[head.len() as int] == images[k]);
    }
}

/// Nothing is pending when every image is present.
proof fn lemma_nothing_pending(images: Seq<Seq<char>>, present: Set<Seq<char>>)
    requires
        forall|k: int| 0 <= k < images.len() ==> present.contains(#[trigger] images[k]),
    ensures
        pending(images, present) == Seq::<Seq<char>>::empty(),
    decreases images.len(),
{
    if images.len() > 0 {
        assert(present.contains(images[images.len() - 1]));
        lemma_nothing_pending(images.drop_last(), present);
    } else {
        assert(images =~= Seq::<Seq<char>>::empty());
    }
}

/// A second pass over an unchanged source copies nothing, and leaves the
/// destination's file names as the first pass left them.
pub proof fn lemma_second_pass_copies_nothing(images: Seq<Seq<char>>, present: Set<Seq<char>>)
    ensures
        pending(images, after_pass(images, present)) == Seq::<Seq<char>>::empty(),
        after_pass(images, after_pass(images, present)) == after_pass(images, present),
{
    let once = after_pass(images, present);
    assert forall|k: int| 0 <= k < images.len() implies once.contains(#[trigger] images[k]) by {
        lemma_image_present_or_pending(images, present, k);
        if !present.contains(images[k]) {
            assert(pending(images, present).to_set().contains(images[k]));
        }
    }
    lemma_nothing_pending(images, once);
    assert(Seq::<Seq<char>>::empty().to_set() =~= Set::<Seq<char>>::empty());
    assert(once + Set::<Seq<char>>::empty() =~= once);
}

/// After a pass in which the copies of the names in `copied` succeeded and
/// the others failed, the next pass has exactly the failed ones left to
/// copy: a failed copy takes no other file with it, and is tried again.
pub proof fn lemma_failed_copies_stay_pending(
    images: Seq<Seq<char>>,
    present: Set<Seq<char>>,
    copied: Set<Seq<char>>,
)
    ensures
        pending(images, present + copied) == pending(pending(images, present), copied),
    decreases images.len(),
{
    if images.len() > 0 {
        lemma_failed_copies_stay_pending(images.drop_last(), present, copied);
        let head = pending(images.drop_last(), present);
        if !present.contains(images.last()) {
            let grown = head.push(images.last());
            assert(grown.drop_last() =~= head);
        }
    }
}

} // verus!
