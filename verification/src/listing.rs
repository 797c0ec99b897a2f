//! Directory-listing records and their presentation order: folders first,
//! then case-insensitive lexicographic name order.

use vstd::prelude::*;
use vstd::relations::sorted_by;
use crate::order::{lex_le, lemma_lex_le_total, lemma_lex_le_transitive, str_lex_le};
use crate::unicode::{lower_of, lowercase};

verus! {

#[derive(Clone, Copy, PartialEq, Eq, Structural, Debug)]
pub enum FileKind {
    File,
    Folder,
}

/// One entry of a directory listing, as presented to the user interface.
#[derive(Debug)]
pub struct FileItem {
    /// Position of the entry in the order the directory was read.
    pub id: u64,
    pub name: String,
    pub file_type: FileKind,
    /// Byte size; folders carry none.
    pub size: Option<u64>,
    /// Modification time, in milliseconds since the Unix epoch.
    pub date_modified_ms: i64,
    /// The part of the name after its final dot; folders carry none.
    pub extension: Option<String>,
    pub path: String,
}

/// What the filesystem reports of one directory entry, before the
/// library turns it into a `FileItem`.
#[derive(Debug)]
pub struct DirEntryInfo {
    pub name: String,
    pub is_dir: bool,
    pub size: u64,
    pub date_modified_ms: i64,
    pub path: String,
}

/// Mathematical model of a `FileItem`.
pub struct ItemModel {
    pub id: int,
    pub name: Seq<char>,
    pub folder: bool,
    pub size: Option<int>,
    pub date_modified_ms: int,
    pub extension: Option<Seq<char>>,
    pub path: Seq<char>,
}

impl View for FileItem {
    type V = ItemModel;

    open spec fn view(&self) -> ItemModel {
        ItemModel {
            id: self.id as int,
            name: self.name@,
            folder: self.file_type is Folder,
            size: match self.size {
                Some(n) => Some(n as int),
                None => None,
            },
            date_modified_ms: self.date_modified_ms as int,
            extension: match self.extension {
                Some(s) => Some(s@),
                None => None,
            },
            path: self.path@,
        }
    }
}

/// Mathematical model of a `DirEntryInfo`.
pub struct EntryModel {
    pub name: Seq<char>,
    pub is_dir: bool,
    pub size: int,
    pub date_modified_ms: int,
    pub path: Seq<char>,
}

impl View for DirEntryInfo {
    type V = EntryModel;

    open spec fn view(&self) -> EntryModel {
        EntryModel {
            name: self.name@,
            is_dir: self.is_dir,
            size: self.size as int,
            date_modified_ms: self.date_modified_ms as int,
            path: self.path@,
        }
    }
}

/// Presentation order: every folder before every file; within one kind,
/// case-insensitive lexicographic order of the names.
pub open spec fn item_le(a: ItemModel, b: ItemModel) -> bool {
    if a.folder && !b.folder {
        true
    } else if !a.folder && b.folder {
        false
    } else {
        lex_le(lower_of(a.name), lower_of(b.name))
    }
}

/// The presentation order as a function value, for `sorted_by`.
pub open spec fn item_order() -> spec_fn(ItemModel, ItemModel) -> bool {
    |a: ItemModel, b: ItemModel| item_le(a, b)
}

/// The presentation order is total.
pub proof fn lemma_item_le_total(a: ItemModel, b: ItemModel)
    ensures
        item_le(a, b) || item_le(b, a),
{
    lemma_lex_le_total(lower_of(a.name), lower_of(b.name));
}

/// The presentation order is transitive.
pub proof fn lemma_item_le_transitive(a: ItemModel, b: ItemModel, c: ItemModel)
    requires
        item_le(a, b),
        item_le(b, c),
    ensures
        item_le(a, c),
{
    if a.folder == b.folder && b.folder == c.folder {
        lemma_lex_le_transitive(lower_of(a.name), lower_of(b.name), lower_of(c.name));
    }
}

/// The models of a sequence of items.
pub open spec fn views_of(s: Seq<FileItem>) -> Seq<ItemModel> {
    s.map_values(|x: FileItem| x@)
}

/// Decides `item_le(a@, b@)`.
fn item_le_exec(a: &FileItem, b: &FileItem) -> (r: bool)
    ensures
        r == item_le(a@, b@),
{
    match (a.file_type, b.file_type) {
        (FileKind::Folder, FileKind::File) => true,
        (FileKind::File, FileKind::Folder) => false,
        _ => {
            let la = lowercase(a.name.as_str());
            let lb = lowercase(b.name.as_str());
            str_lex_le(la.as_str(), lb.as_str())
        },
    }
}

/// Inserts `item` into a vector sorted by the presentation order, keeping
/// it sorted; the contents grow by exactly that item.
fn insert_sorted(v: &mut Vec<FileItem>, item: FileItem)
    requires
        sorted_by(views_of(old(v)@), item_order()),
    ensures
        sorted_by(views_of(final(v)@), item_order()),
        views_of(final(v)@).to_multiset() == views_of(old(v)@).to_multiset().insert(item@),
{
    let mut j: usize = 0;
    while j < v.len() && item_le_exec(&v[j], &item)
        invariant
            j <= v@.len(),
            *v == *old(v),
            forall|k: int| 0 <= k < j ==> item_le(#[trigger] views_of(v@)[k], item@),
        decreases v@.len() - j,
    {
        j = j + 1;
    }
    proof {
        if (j as int) < v@.len() {
            lemma_item_le_total(views_of(v@)[j as int], item@);
        }
    }
    let ghost s = views_of(v@);
    v.insert(j, item);
    proof {
        broadcast use vstd::seq_lib::to_multiset_insert;

        let ord = item_order();
        let t = views_of(v@);
        assert(t =~= s.insert(j as int, item@));
        assert(t.to_multiset() == s.to_multiset().insert(item@));
        assert forall|p: int, q: int| 0 <= p < q < t.len() implies #[trigger] ord(t[p], t[q]) by {
            if q < j {
                assert(ord(s[p], s[q]));
            } else if q == j {
                assert(t[p] == s[p] && t[q] == item@);
                assert(item_le(s[p], item@));
            } else {
                if p < j {
                    assert(ord(s[p], s[q - 1]));
                } else if p == j {
                    if q - 1 > j {
                        assert(ord(s[j as int], s[q - 1]));
                        lemma_item_le_transitive(item@, s[j as int], s[q - 1]);
                    }
                    assert(item_le(item@, s[q - 1]));
                } else {
                    assert(ord(s[p - 1], s[q - 1]));
                }
            }
            assert(item_le(t[p], t[q]));
        }
        assert(sorted_by(t, item_order()));
    }
}

/// Sorts a listing by the presentation order. The result holds exactly
/// the given items.
pub fn sort_items(items: Vec<FileItem>) -> (r: Vec<FileItem>)
    ensures
        sorted_by(views_of(r@), item_order()),
        views_of(r@).to_multiset() == views_of(items@).to_multiset(),
{
    let ghost orig = views_of(items@);
    let mut rest = items;
    let mut out: Vec<FileItem> = Vec::new();
    proof {
        broadcast use vstd::seq_lib::group_to_multiset_ensures;
        broadcast use vstd::multiset::group_multiset_axioms;

        assert(views_of(out@) =~= Seq::<ItemModel>::empty());
        assert(views_of(out@).to_multiset().add(views_of(rest@).to_multiset()) =~= orig.to_multiset());
    }
    while rest.len() > 0
        invariant
            sorted_by(views_of(out@), item_order()),
            views_of(out@).to_multiset().add(views_of(rest@).to_multiset()) == orig.to_multiset(),
        decreases rest@.len(),
    {
        let ghost rest_before = views_of(rest@);
        let item = rest.remove(0);
        insert_sorted(&mut out, item);
        proof {
            broadcast use vstd::seq_lib::group_to_multiset_ensures;
            broadcast use vstd::multiset::group_multiset_axioms;

            assert(views_of(rest@) =~= rest_before.remove(0));
            assert(rest_before.remove(0).to_multiset() =~= rest_before.to_multiset().remove(
                rest_before[0],
            ));
            assert(views_of(out@).to_multiset().add(views_of(rest@).to_multiset())
                =~= orig.to_multiset());
        }
    }
    proof {
        broadcast use vstd::multiset::group_multiset_axioms;

        assert(views_of(rest@) =~= Seq::<ItemModel>::empty());
        assert(views_of(out@).to_multiset() =~= orig.to_multiset());
    }
    out
}

/// Index of the final `'.'` of `s`, or `-1` if `s` has none.
pub open spec fn last_dot(s: Seq<char>) -> int
    decreases s.len(),
{
    if s.len() == 0 {
        -1
    } else if s[s.len() - 1] == '.' {
        s.len() - 1
    } else {
        last_dot(s.drop_last())
    }
}

/// What `last_dot` finds: the final dot, with nothing but non-dots after it.
pub proof fn lemma_last_dot(s: Seq<char>)
    ensures
        -1 <= last_dot(s) < s.len(),
        last_dot(s) == -1 ==> forall|j: int| 0 <= j < s.len() ==> s[j] != '.',
        last_dot(s) >= 0 ==> s[last_dot(s)] == '.',
        last_dot(s) >= 0 ==> forall|j: int| last_dot(s) < j < s.len() ==> s[j] != '.',
    decreases s.len(),
{
    if s.len() > 0 && s[s.len() - 1] != '.' {
        lemma_last_dot(s.drop_last());
        assert forall|j: int| 0 <= j < s.len() - 1 implies s.drop_last()[j] == s[j] by {}
    }
}

/// The extension of a file name: the part after the final dot. A name
/// without a dot, or whose only dot begins it, has none.
pub open spec fn extension_spec(name: Seq<char>) -> Option<Seq<char>> {
    let d = last_dot(name);
    if d <= 0 {
        None
    } else {
        Some(name.skip(d + 1))
    }
}

/// Computes `extension_spec(name@)`.
pub fn extension_of(name: &str) -> (r: Option<String>)
    ensures
        match r {
            Some(s) => extension_spec(name@) == Some(s@),
            None => extension_spec(name@) is None,
        },
{
    let n: usize = name.unicode_len();
    let mut i: usize = n;
    loop
        invariant
            i <= n,
            n == name@.len(),
            forall|j: int| i <= j < n ==> name@[j] != '.',
        decreases i,
    {
        if i == 0 {
            proof {
                lemma_last_dot(name@);
            }
            return None;
        }
        let c = name.get_char(i - 1);
        if c == '.' {
            proof {
                lemma_last_dot(name@);
                assert(last_dot(name@) == i - 1);
            }
            if i == 1 {
                return None;
            }
            let ext = name.substring_char(i, n).to_owned();
            proof {
                assert(name@.subrange(i as int, n as int) =~= name@.skip(i as int));
            }
            return Some(ext);
        }
        i = i - 1;
    }
}

/// Turns what the filesystem reported into the item shown for it:
/// `id` is the position in reading order, folders carry no size and no
/// extension, files carry their size and the extension of their name.
pub open spec fn entry_model(e: EntryModel, id: int) -> ItemModel {
    ItemModel {
        id: id,
        name: e.name,
        folder: e.is_dir,
        size: if e.is_dir {
            None
        } else {
            Some(e.size)
        },
        date_modified_ms: e.date_modified_ms,
        extension: if e.is_dir {
            None
        } else {
            extension_spec(e.name)
        },
        path: e.path,
    }
}

/// The items a sequence of raw entries gives rise to, ids in reading order.
pub open spec fn entry_models(s: Seq<DirEntryInfo>) -> Seq<ItemModel> {
    Seq::new(s.len(), |i: int| entry_model(s[i]@, i))
}

/// Builds the listing for a directory: one item per raw entry, with ids
/// in reading order, sorted folders-first then by case-insensitive name.
pub fn build_listing(entries: Vec<DirEntryInfo>) -> (r: Vec<FileItem>)
    requires
        entries@.len() <= u64::MAX,
    ensures
        sorted_by(views_of(r@), item_order()),
        views_of(r@).to_multiset() == entry_models(entries@).to_multiset(),
{
    let mut raw: Vec<FileItem> = Vec::new();
    let mut i: usize = 0;
    proof {
        assert(views_of(raw@) =~= entry_models(entries@).take(0));
    }
    while i < entries.len()
        invariant
            i <= entries@.len(),
            entries@.len() <= u64::MAX,
            views_of(raw@) == entry_models(entries@).take(i as int),
        decreases entries@.len() - i,
    {
        let e = &entries[i];
        let ext = if e.is_dir {
            None
        } else {
            extension_of(e.name.as_str())
        };
        let item = FileItem {
            id: i as u64,
            name: e.name.clone(),
            file_type: if e.is_dir {
                FileKind::Folder
            } else {
                FileKind::File
            },
            size: if e.is_dir {
                None
            } else {
                Some(e.size)
            },
            date_modified_ms: e.date_modified_ms,
            extension: ext,
            path: e.path.clone(),
        };
        proof {
            assert(item@ == entry_model(entries@[i as int]@, i as int));
        }
        let ghost before = raw@;
        raw.push(item);
        proof {
            let m = entry_models(entries@);
            assert(views_of(before).len() == before.len());
            assert(before.len() == i as int);
            assert(raw@ == before.push(item));
            assert forall|k: int| 0 <= k < i + 1 implies views_of(raw@)[k] == m.take(
                i as int + 1,
            )[k] by {
                if k < i {
                    assert(raw@[k] == before[k]);
                    assert(views_of(before)[k] == m.take(i as int)[k]);
                }
            }
            assert(views_of(raw@) =~= m.take(i as int + 1));
        }
        i = i + 1;
    }
    proof {
        assert(entry_models(entries@).take(entries@.len() as int) =~= entry_models(entries@));
    }
    sort_items(raw)
}

} // verus!
