use vstd::prelude::*;

use crate::names::{count_matches, lemma_repeat_paste_new_name, numbered_name, join};
use crate::names::{contains_str, decimal_string, extension, file_name, join_path};

verus! {

/// What the filesystem reports an entry to be.
#[derive(Clone, Copy, Debug, PartialEq, Eq, Structural)]
pub enum EntryKind {
    File,
    Directory,
    Other,
}

/// One entry of a directory: its bare name, its kind, and a one-line
/// rendering of its metadata.
pub struct DirEntry {
    pub name: String,
    pub kind: EntryKind,
    pub detail: String,
}

/// One listing of a directory, taken in a single pass.
pub struct DirectorySnapshot {
    pub path: String,
    pub entries: Vec<DirEntry>,
}

pub open spec fn is_self_ref(name: Seq<char>) -> bool {
    name == seq!['.']
}

pub open spec fn is_parent_ref(name: Seq<char>) -> bool {
    name == seq!['.', '.']
}

/// Whether an enumerated entry is shown: `.` never, `..` only when asked for.
pub open spec fn shown(e: DirEntry, include_parent: bool) -> bool {
    !is_self_ref(e.name@) && (include_parent || !is_parent_ref(e.name@))
}

/// The shown entries of an enumeration, in enumeration order.
pub open spec fn listed(raw: Seq<DirEntry>, include_parent: bool) -> Seq<DirEntry>
    decreases raw.len(),
{
    if raw.len() == 0 {
        Seq::empty()
    } else if shown(raw.last(), include_parent) {
        listed(raw.drop_last(), include_parent).push(raw.last())
    } else {
        listed(raw.drop_last(), include_parent)
    }
}

/// The bare names of a listing, position by position.
pub open spec fn names_of(entries: Seq<DirEntry>) -> Seq<Seq<char>> {
    entries.map_values(|e: DirEntry| e.name@)
}

/// The detail rows of a listing, position by position.
pub open spec fn details_of(entries: Seq<DirEntry>) -> Seq<Seq<char>> {
    entries.map_values(|e: DirEntry| e.detail@)
}

/// No two entries of a listing share a name, as in any one enumeration of a
/// directory.
pub open spec fn names_distinct(entries: Seq<DirEntry>) -> bool {
    names_of(entries).no_duplicates()
}

/// The shown entries carry names of the enumeration, and distinct names
/// stay distinct.
pub proof fn lemma_listed_names(raw: Seq<DirEntry>, include_parent: bool)
    ensures
        forall|i: int|
            0 <= i < listed(raw, include_parent).len() ==> names_of(raw).contains(
                #[trigger] names_of(listed(raw, include_parent))[i],
            ),
        names_distinct(raw) ==> names_distinct(listed(raw, include_parent)),
    decreases raw.len(),
{
    if raw.len() > 0 {
        let rest = raw.drop_last();
        let l = raw.last();
        let prev = listed(rest, include_parent);
        let cur = listed(raw, include_parent);
        lemma_listed_names(rest, include_parent);
        assert forall|i: int| 0 <= i < cur.len() implies names_of(raw).contains(
            #[trigger] names_of(cur)[i],
        ) by {
            if i < prev.len() {
                assert(cur[i] == prev[i]);
                let j = choose|j: int|
                    0 <= j < names_of(rest).len() && names_of(rest)[j] == names_of(prev)[i];
                assert(names_of(raw)[j] == names_of(rest)[j]);
            } else {
                assert(cur[i] == l);
                assert(names_of(raw)[raw.len() - 1] == l.name@);
            }
        }
        if names_distinct(raw) {
            assert(names_of(rest) =~= names_of(raw).drop_last());
            assert(names_distinct(rest)) by {
                assert forall|a: int, b: int|
                    0 <= a < names_of(rest).len() && 0 <= b < names_of(rest).len() && a != b
                    implies names_of(rest)[a] != names_of(rest)[b] by {
                    assert(names_of(raw)[a] != names_of(raw)[b]);
                }
            }
            if shown(l, include_parent) {
                assert forall|a: int, b: int|
                    0 <= a < names_of(cur).len() && 0 <= b < names_of(cur).len() && a != b
                    implies names_of(cur)[a] != names_of(cur)[b] by {
                    if a < prev.len() && b < prev.len() {
                        assert(names_of(cur)[a] == names_of(prev)[a]);
                        assert(names_of(cur)[b] == names_of(prev)[b]);
                    } else {
                        let k = if a < prev.len() { a } else { b };
                        assert(k < prev.len());
                        assert(names_of(cur)[k] == names_of(prev)[k]);
                        let j = choose|j: int|
                            0 <= j < names_of(rest).len() && names_of(rest)[j] == names_of(
                                prev,
                            )[k];
                        assert(names_of(raw)[j] == names_of(rest)[j]);
                        assert(names_of(raw)[raw.len() - 1] == l.name@);
                        assert(names_of(cur)[prev.len() as int] == l.name@);
                    }
                }
            } else {
                assert(cur == prev);
            }
        }
    }
}

/// Pasting a file twice into the directory that holds it gives two different
/// names. Here `raw1` is the enumeration before the first paste and `raw2`
/// the one after it: the first numbered name was not yet taken, it is listed
/// now, and so are all the earlier names.
pub proof fn lemma_repeat_paste_in_listing(
    raw1: Seq<DirEntry>,
    raw2: Seq<DirEntry>,
    name: Seq<char>,
)
    requires
        names_distinct(raw1),
        names_distinct(raw2),
        forall|x: Seq<char>|
            names_of(listed(raw1, true)).contains(x) ==> names_of(listed(raw2, true)).contains(x),
        !names_of(listed(raw1, true)).contains(numbered_name(names_of(listed(raw1, true)), name)),
        names_of(listed(raw2, true)).contains(numbered_name(names_of(listed(raw1, true)), name)),
    ensures
        numbered_name(names_of(listed(raw2, true)), name) != numbered_name(
            names_of(listed(raw1, true)),
            name,
        ),
{
    lemma_listed_names(raw1, true);
    lemma_listed_names(raw2, true);
    lemma_repeat_paste_new_name(names_of(listed(raw1, true)), names_of(listed(raw2, true)), name);
}

/// Whether `name` is `..`.
pub fn is_parent_name(name: &str) -> (r: bool)
    ensures
        r == is_parent_ref(name@),
{
    let len = name.unicode_len();
    let r = len == 2 && name.get_char(0) == '.' && name.get_char(1) == '.';
    assert(r ==> name@ =~= seq!['.', '.']);
    r
}

fn is_self_name(name: &str) -> (r: bool)
    ensures
        r == is_self_ref(name@),
{
    let len = name.unicode_len();
    let r = len == 1 && name.get_char(0) == '.';
    assert(r ==> name@ =~= seq!['.']);
    r
}

/// A copy of an entry.
pub fn copy_entry(e: &DirEntry) -> (r: DirEntry)
    ensures
        r == *e,
{
    DirEntry { name: e.name.clone(), kind: e.kind, detail: e.detail.clone() }
}

/// Builds the snapshot of the directory at `path` from one enumeration of it:
/// `.` is dropped, `..` is kept only when `include_parent` holds, and the
/// order of the enumeration is kept.
pub fn list_current_dir(path: String, raw: &Vec<DirEntry>, include_parent: bool) -> (r:
    DirectorySnapshot)
    ensures
        r.path == path,
        r.entries@ == listed(raw@, include_parent),
        names_distinct(raw@) ==> names_distinct(r.entries@),
{
    let mut entries: Vec<DirEntry> = Vec::new();
    let mut i: usize = 0;
    while i < raw.len()
        invariant
            i <= raw@.len(),
            entries@ == listed(raw@.subrange(0, i as int), include_parent),
        decreases raw@.len() - i,
    {
        let e = &raw[i];
        assert(raw@.subrange(0, i + 1).drop_last() =~= raw@.subrange(0, i as int));
        assert(raw@.subrange(0, i + 1).last() == raw@[i as int]);
        if !is_self_name(e.name.as_str()) && (include_parent || !is_parent_name(e.name.as_str())) {
            entries.push(copy_entry(e));
        }
        i = i + 1;
    }
    assert(raw@.subrange(0, raw@.len() as int) =~= raw@);
    proof {
        lemma_listed_names(raw@, include_parent);
    }
    DirectorySnapshot { path, entries }
}

/// The bare names of `entries`, in order.
pub fn entry_names(entries: &Vec<DirEntry>) -> (r: Vec<String>)
    ensures
        r@.len() == entries@.len(),
        forall|i: int| 0 <= i < r@.len() ==> #[trigger] r@[i]@ == names_of(entries@)[i],
{
    let mut r: Vec<String> = Vec::new();
    let mut i: usize = 0;
    while i < entries.len()
        invariant
            i <= entries@.len(),
            r@.len() == i,
            forall|j: int| 0 <= j < i ==> #[trigger] r@[j]@ == entries@[j].name@,
        decreases entries@.len() - i,
    {
        r.push(entries[i].name.clone());
        i = i + 1;
    }
    r
}

/// The detail rows of `entries`, in order.
pub fn entry_details(entries: &Vec<DirEntry>) -> (r: Vec<String>)
    ensures
        r@.len() == entries@.len(),
        forall|i: int| 0 <= i < r@.len() ==> #[trigger] r@[i]@ == details_of(entries@)[i],
{
    let mut r: Vec<String> = Vec::new();
    let mut i: usize = 0;
    while i < entries.len()
        invariant
            i <= entries@.len(),
            r@.len() == i,
            forall|j: int| 0 <= j < i ==> #[trigger] r@[j]@ == entries@[j].detail@,
        decreases entries@.len() - i,
    {
        r.push(entries[i].detail.clone());
        i = i + 1;
    }
    r
}

/// The two views of one listing have one row per entry: position `i` of the
/// names and position `i` of the detail rows describe the same entry.
pub proof fn lemma_views_synchronized(entries: Seq<DirEntry>)
    ensures
        names_of(entries).len() == details_of(entries).len(),
        forall|i: int|
            0 <= i < entries.len() ==> #[trigger] names_of(entries)[i] == entries[i].name@
                && details_of(entries)[i] == entries[i].detail@,
{
}

/// How many entries have a name that contains `grep`.
pub fn list_current_dir_matches(entries: &Vec<DirEntry>, grep: &str) -> (r: usize)
    ensures
        r == count_matches(names_of(entries@), grep@),
{
    let mut n: usize = 0;
    let mut i: usize = 0;
    while i < entries.len()
        invariant
            i <= entries@.len(),
            n == count_matches(names_of(entries@.subrange(0, i as int)), grep@),
            n <= i,
        decreases entries@.len() - i,
    {
        assert(names_of(entries@.subrange(0, i + 1)).drop_last() =~= names_of(
            entries@.subrange(0, i as int),
        ));
        assert(names_of(entries@.subrange(0, i + 1)).last() == entries@[i as int].name@);
        if contains_str(entries[i].name.as_str(), grep) {
            n = n + 1;
        }
        i = i + 1;
    }
    assert(entries@.subrange(0, entries@.len() as int) =~= entries@);
    n
}

/// The path at which a file named `selected_item` is pasted into `cwd` when
/// its own name is taken there: `stem (n)ext`, where `n` counts the entries
/// whose name contains the stem. The count is a heuristic: it does not probe
/// for a free name.
pub fn make_file_already_exists_dest(cwd: &str, entries: &Vec<DirEntry>, selected_item: &str) -> (r:
    String)
    ensures
        r@ == join(cwd@, numbered_name(names_of(entries@), selected_item@)),
{
    let stem = file_name(selected_item);
    let ext = extension(selected_item);
    let size = list_current_dir_matches(entries, stem.as_str());
    let mut name = stem;
    name.append(" (");
    let digits = decimal_string(size);
    name.append(digits.as_str());
    name.append(")");
    name.append(ext);
    proof {
        reveal_strlit(" (");
        reveal_strlit(")");
    }
    assert(name@ =~= numbered_name(names_of(entries@), selected_item@));
    join_path(cwd, name.as_str())
}

} // verus!
