//! The listing of a directory in the project browser: hidden entries left out,
//! directories first, each group ordered by name without regard to ASCII case
//! (entries whose names compare equal keep the order in which they were read).
use vstd::prelude::*;

use crate::ide::model::IdeBrowseEntry;
use crate::ide::order::{lex_lt, lex_lt_exec};
use crate::ide::workspace::entry_kind;
use crate::text::{chars_of, lower, lower_chars, starts_with};

verus! {

/// An entry of a directory as it was read: name, full path, whether it is a
/// directory, size in bytes, and for a directory the number of `.st` files in it.
#[derive(Debug)]
pub struct BrowseItem {
    pub name: String,
    pub path: String,
    pub is_dir: bool,
    pub size: u64,
    pub st_count: Option<u32>,
}

pub type ItemView = (Seq<char>, Seq<char>, bool, u64, Option<u32>);

pub open spec fn item_view(i: BrowseItem) -> ItemView {
    (i.name@, i.path@, i.is_dir, i.size, i.st_count)
}

pub open spec fn items_view(s: Seq<BrowseItem>) -> Seq<ItemView> {
    s.map_values(|i: BrowseItem| item_view(i))
}

pub open spec fn browse_entry_view(e: IdeBrowseEntry) -> (Seq<char>, Seq<char>, Seq<char>, u64, Option<u32>) {
    (e.name@, e.path@, e.kind@, e.size, e.st_count)
}

pub open spec fn browse_entries_view(s: Seq<IdeBrowseEntry>) -> Seq<(Seq<char>, Seq<char>, Seq<char>, u64, Option<u32>)> {
    s.map_values(|e: IdeBrowseEntry| browse_entry_view(e))
}

/// How an item is listed.
pub open spec fn listed_view(i: ItemView) -> (Seq<char>, Seq<char>, Seq<char>, u64, Option<u32>) {
    (i.0, i.1, entry_kind(i.2), i.3, i.4)
}

/// A name starting with a dot is hidden.
pub open spec fn is_hidden(name: Seq<char>) -> bool {
    starts_with(name, "."@)
}

/// The visible items of `s` that are directories (`dirs`) or files, in order.
pub open spec fn pick(s: Seq<ItemView>, dirs: bool) -> Seq<ItemView>
    decreases s.len(),
{
    if s.len() == 0 {
        Seq::empty()
    } else {
        let r = pick(s.drop_last(), dirs);
        let e = s.last();
        if !is_hidden(e.0) && e.2 == dirs { r.push(e) } else { r }
    }
}

/// `e` placed into `s`, ordered by lower-case name, after every entry whose
/// name does not come after its own.
pub open spec fn insert_by_name(s: Seq<ItemView>, e: ItemView) -> Seq<ItemView>
    decreases s.len(),
{
    if s.len() == 0 {
        seq![e]
    } else if lex_lt(lower(e.0), lower(s.last().0)) {
        insert_by_name(s.drop_last(), e).push(s.last())
    } else {
        s.push(e)
    }
}

/// `s` ordered by lower-case name; a stable sort.
pub open spec fn by_name(s: Seq<ItemView>) -> Seq<ItemView>
    decreases s.len(),
{
    if s.len() == 0 {
        s
    } else {
        insert_by_name(by_name(s.drop_last()), s.last())
    }
}

/// The listing: the visible directories by name, then the visible files by name.
pub open spec fn listing(s: Seq<ItemView>) -> Seq<(Seq<char>, Seq<char>, Seq<char>, u64, Option<u32>)> {
    (by_name(pick(s, true)) + by_name(pick(s, false))).map_values(|i: ItemView| listed_view(i))
}

fn copy_item(i: &BrowseItem) -> (r: BrowseItem)
    ensures
        item_view(r) == item_view(*i),
{
    BrowseItem { name: i.name.clone(), path: i.path.clone(), is_dir: i.is_dir, size: i.size, st_count: i.st_count }
}

fn insert_item(sorted: &mut Vec<BrowseItem>, e: BrowseItem)
    ensures
        items_view(final(sorted)@) == insert_by_name(items_view(old(sorted)@), item_view(e)),
{
    let ghost s = items_view(sorted@);
    let key = lower_chars(chars_of(e.name.as_str()).as_slice());
    let mut k: usize = sorted.len();
    assert(s.take(k as int) =~= s);
    assert(s.skip(k as int) =~= Seq::<ItemView>::empty());
    loop
        invariant
            k <= sorted@.len(),
            sorted@ == old(sorted)@,
            s == items_view(sorted@),
            key@ == lower(e.name@),
            insert_by_name(s, item_view(e)) == insert_by_name(s.take(k as int), item_view(e)) + s.skip(k as int),
        ensures
            k <= sorted@.len(),
            k > 0 ==> !lex_lt(lower(e.name@), lower(s[k - 1].0)),
        decreases k,
    {
        if k == 0 {
            break;
        }
        let other = lower_chars(chars_of(sorted[k - 1].name.as_str()).as_slice());
        assert(s[k - 1].0 == sorted@[k - 1].name@);
        if !lex_lt_exec(key.as_slice(), other.as_slice()) {
            break;
        }
        assert(s.take(k as int).drop_last() =~= s.take(k - 1));
        assert(s.take(k as int).last() == s[k - 1]);
        assert(s.skip(k - 1) =~= seq![s[k - 1]] + s.skip(k as int));
        assert(insert_by_name(s.take(k - 1), item_view(e)).push(s[k - 1]) + s.skip(k as int) =~= insert_by_name(
            s.take(k - 1),
            item_view(e),
        ) + s.skip(k - 1));
        k = k - 1;
    }
    proof {
        if k > 0 {
            assert(s.take(k as int).last() == s[k - 1]);
            assert(s.take(k as int).push(item_view(e)) == insert_by_name(s.take(k as int), item_view(e)));
        } else {
            assert(s.take(0) =~= Seq::<ItemView>::empty());
        }
    }
    sorted.insert(k, e);
    assert(items_view(sorted@) =~= s.take(k as int).push(item_view(e)) + s.skip(k as int));
}

fn hidden_exec(name: &str) -> (r: bool)
    ensures
        r == is_hidden(name@),
{
    crate::text::starts_with_str(chars_of(name).as_slice(), ".")
}

/// The listing of a directory whose entries were read as `items`.
pub fn browse_listing(items: &Vec<BrowseItem>) -> (r: Vec<IdeBrowseEntry>)
    ensures
        browse_entries_view(r@) == listing(items_view(items@)),
{
    let ghost s = items_view(items@);
    let mut dirs: Vec<BrowseItem> = Vec::new();
    let mut files: Vec<BrowseItem> = Vec::new();
    let mut i: usize = 0;
    assert(s.take(0) =~= Seq::<ItemView>::empty());
    while i < items.len()
        invariant
            s == items_view(items@),
            i <= items.len(),
            items_view(dirs@) == by_name(pick(s.take(i as int), true)),
            items_view(files@) == by_name(pick(s.take(i as int), false)),
        decreases items.len() - i,
    {
        let it = &items[i];
        assert(s[i as int] == item_view(*it));
        proof {
            assert(s.take(i + 1).drop_last() =~= s.take(i as int));
            assert(s.take(i + 1).last() == s[i as int]);
        }
        if !hidden_exec(it.name.as_str()) {
            if it.is_dir {
                let ghost before = pick(s.take(i as int), true);
                insert_item(&mut dirs, copy_item(it));
                proof {
                    assert(pick(s.take(i + 1), true) == before.push(s[i as int]));
                    assert(before.push(s[i as int]).drop_last() =~= before);
                }
            } else {
                let ghost before = pick(s.take(i as int), false);
                insert_item(&mut files, copy_item(it));
                proof {
                    assert(pick(s.take(i + 1), false) == before.push(s[i as int]));
                    assert(before.push(s[i as int]).drop_last() =~= before);
                }
            }
        }
        i = i + 1;
    }
    proof {
        assert(s.take(items.len() as int) =~= s);
    }
    let ghost all = items_view(dirs@) + items_view(files@);
    let mut out: Vec<IdeBrowseEntry> = Vec::new();
    let mut j: usize = 0;
    while j < dirs.len()
        invariant
            j <= dirs.len(),
            all == items_view(dirs@) + items_view(files@),
            browse_entries_view(out@) == all.take(j as int).map_values(|i: ItemView| listed_view(i)),
        decreases dirs.len() - j,
    {
        let d = &dirs[j];
        let ghost before = browse_entries_view(out@);
        out.push(IdeBrowseEntry {
            name: d.name.clone(),
            path: d.path.clone(),
            kind: if d.is_dir { "directory".to_owned() } else { "file".to_owned() },
            size: d.size,
            st_count: d.st_count,
        });
        proof {
            assert(all[j as int] == item_view(dirs@[j as int]));
            assert(all.take(j + 1) =~= all.take(j as int).push(all[j as int]));
            assert(browse_entries_view(out@) =~= before.push(listed_view(all[j as int])));
            assert(browse_entries_view(out@) =~= all.take(j + 1).map_values(|i: ItemView| listed_view(i)));
        }
        j = j + 1;
    }
    let mut k: usize = 0;
    while k < files.len()
        invariant
            k <= files.len(),
            all == items_view(dirs@) + items_view(files@),
            browse_entries_view(out@) == all.take(dirs.len() + k).map_values(|i: ItemView| listed_view(i)),
        decreases files.len() - k,
    {
        let f = &files[k];
        let ghost before = browse_entries_view(out@);
        out.push(IdeBrowseEntry {
            name: f.name.clone(),
            path: f.path.clone(),
            kind: if f.is_dir { "directory".to_owned() } else { "file".to_owned() },
            size: f.size,
            st_count: f.st_count,
        });
        proof {
            let n = dirs.len() + k;
            assert(all[n as int] == item_view(files@[k as int]));
            assert(all.take(n + 1) =~= all.take(n as int).push(all[n as int]));
            assert(browse_entries_view(out@) =~= before.push(listed_view(all[n as int])));
            assert(browse_entries_view(out@) =~= all.take(n + 1).map_values(|i: ItemView| listed_view(i)));
        }
        k = k + 1;
    }
    proof {
        assert(all.take(all.len() as int) =~= all);
    }
    out
}

} // verus!
