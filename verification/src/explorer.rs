use vstd::prelude::*;

use crate::paths::{parent_path, path_parent};

verus! {

/// One directory entry as listed.
pub struct FileEntry {
    pub path: String,
    pub is_dir: bool,
}

/// A row of the flattened tree: path, depth, whether it is a directory.
pub type ExplorerRow = (String, usize, bool);

/// The Explorer's tree: the listings that arrived so far, keyed by
/// directory, the expanded directories, and the highlighted row.
pub struct ExplorerModel {
    /// Directory listings; no directory is listed twice.
    pub dirs: Vec<(String, Vec<FileEntry>)>,
    /// Expanded directories; none occurs twice.
    pub expanded: Vec<String>,
    pub selected: usize,
}

/// The listing of `dir`, if it arrived.
pub open spec fn listing(dirs: Seq<(String, Vec<FileEntry>)>, dir: Seq<char>) -> Option<Seq<FileEntry>>
    decreases dirs.len(),
{
    if dirs.len() == 0 {
        None
    } else {
        match listing(dirs.drop_last(), dir) {
            Some(l) => Some(l),
            None => if dirs.last().0@ == dir {
                Some(dirs.last().1@)
            } else {
                None
            },
        }
    }
}

/// Whether `dir` is expanded.
pub open spec fn is_expanded(expanded: Seq<String>, dir: Seq<char>) -> bool {
    exists|i: int| 0 <= i < expanded.len() && (#[trigger] expanded[i])@ == dir
}

/// The rows `entries` contribute at `depth`: each entry, followed by the
/// rows of its listing when it is an expanded directory whose listing
/// arrived. `fuel` bounds how deep expansion goes.
pub open spec fn rows_of(
    dirs: Seq<(String, Vec<FileEntry>)>,
    expanded: Seq<String>,
    entries: Seq<FileEntry>,
    depth: nat,
    fuel: nat,
) -> Seq<(Seq<char>, nat, bool)>
    decreases fuel, entries.len(),
{
    if entries.len() == 0 {
        Seq::empty()
    } else {
        let e = entries.last();
        let prev = rows_of(dirs, expanded, entries.drop_last(), depth, fuel);
        let sub = if e.is_dir && is_expanded(expanded, e.path@) && fuel > 0 {
            match listing(dirs, e.path@) {
                Some(children) => rows_of(dirs, expanded, children, depth + 1, (fuel - 1) as nat),
                None => Seq::empty(),
            }
        } else {
            Seq::empty()
        };
        prev + seq![(e.path@, depth, e.is_dir)] + sub
    }
}

/// The Explorer's rows top to bottom: the root's listing at depth 0, each
/// expanded directory's listing nested under it. Expansion goes at most as
/// deep as there are listings, which a tree of real directories never
/// exceeds.
pub open spec fn flatten_spec(dirs: Seq<(String, Vec<FileEntry>)>, expanded: Seq<String>, root: Seq<char>) -> Seq<
    (Seq<char>, nat, bool),
> {
    match listing(dirs, root) {
        Some(entries) => rows_of(dirs, expanded, entries, 0, dirs.len()),
        None => Seq::empty(),
    }
}

/// The views of a list of rows.
pub open spec fn rows_view(rows: Seq<ExplorerRow>) -> Seq<(Seq<char>, nat, bool)> {
    rows.map_values(|r: ExplorerRow| (r.0@, r.1 as nat, r.2))
}

fn find_listing(dirs: &Vec<(String, Vec<FileEntry>)>, dir: &String) -> (r: Option<usize>)
    ensures
        match r {
            Some(i) => i < dirs@.len() && listing(dirs@, dir@) == Some(dirs@[i as int].1@),
            None => listing(dirs@, dir@) is None,
        },
{
    let mut i: usize = 0;
    while i < dirs.len()
        invariant
            i <= dirs@.len(),
            listing(dirs@.take(i as int), dir@) is None,
        decreases dirs@.len() - i,
    {
        assert(dirs@.take(i + 1).drop_last() == dirs@.take(i as int));
        if dirs[i].0 == *dir {
            proof {
                lemma_listing_prefix(dirs@, dir@, i as int + 1);
            }
            return Some(i);
        }
        i = i + 1;
    }
    assert(dirs@.take(dirs@.len() as int) == dirs@);
    None
}

proof fn lemma_listing_prefix(dirs: Seq<(String, Vec<FileEntry>)>, dir: Seq<char>, k: int)
    requires
        0 <= k <= dirs.len(),
        listing(dirs.take(k), dir) is Some,
    ensures
        listing(dirs, dir) == listing(dirs.take(k), dir),
    decreases dirs.len() - k,
{
    if k < dirs.len() {
        assert(dirs.take(k + 1).drop_last() == dirs.take(k));
        lemma_listing_prefix(dirs, dir, k + 1);
    } else {
        assert(dirs.take(k) == dirs);
    }
}

/// Whether the listing of `dir` arrived.
pub fn has_listing(dirs: &Vec<(String, Vec<FileEntry>)>, dir: &String) -> (r: bool)
    ensures
        r == listing(dirs@, dir@) is Some,
{
    find_listing(dirs, dir).is_some()
}

/// Whether `dir` is in `expanded`, and where.
pub fn expanded_position(expanded: &Vec<String>, dir: &String) -> (r: Option<usize>)
    ensures
        match r {
            Some(i) => i < expanded@.len() && expanded@[i as int]@ == dir@,
            None => !is_expanded(expanded@, dir@),
        },
{
    let mut i: usize = 0;
    while i < expanded.len()
        invariant
            i <= expanded@.len(),
            forall|k: int| 0 <= k < i ==> (#[trigger] expanded@[k])@ != dir@,
        decreases expanded@.len() - i,
    {
        if expanded[i] == *dir {
            return Some(i);
        }
        i = i + 1;
    }
    None
}

impl ExplorerModel {
    pub fn new() -> (r: ExplorerModel)
        ensures
            r.dirs@.len() == 0,
            r.expanded@.len() == 0,
            r.selected == 0,
    {
        ExplorerModel { dirs: Vec::new(), expanded: Vec::new(), selected: 0 }
    }

    fn push_rows(&self, entries: &Vec<FileEntry>, depth: usize, fuel: usize, rows: &mut Vec<ExplorerRow>)
        requires
            depth + fuel <= usize::MAX,
        ensures
            rows_view(final(rows)@) == rows_view(old(rows)@) + rows_of(
                self.dirs@,
                self.expanded@,
                entries@,
                depth as nat,
                fuel as nat,
            ),
        decreases fuel, entries@.len(),
    {
        let ghost start = rows_view(rows@);
        let mut i: usize = 0;
        while i < entries.len()
            invariant
                i <= entries@.len(),
                depth + fuel <= usize::MAX,
                rows_view(rows@) == start + rows_of(
                    self.dirs@,
                    self.expanded@,
                    entries@.take(i as int),
                    depth as nat,
                    fuel as nat,
                ),
            decreases entries@.len() - i,
        {
            let e = &entries[i];
            let ghost before = rows_view(rows@);
            rows.push((e.path.clone(), depth, e.is_dir));
            assert(rows_view(rows@) == before + seq![(e.path@, depth as nat, e.is_dir)]);
            let ghost mid = rows_view(rows@);
            let mut descended = false;
            if e.is_dir && fuel > 0 {
                match expanded_position(&self.expanded, &e.path) {
                    Some(_) => {
                        match find_listing(&self.dirs, &e.path) {
                            Some(k) => {
                                self.push_rows(&self.dirs[k].1, depth + 1, fuel - 1, rows);
                                descended = true;
                            },
                            None => {},
                        }
                    },
                    None => {},
                }
            }
            proof {
                let t = entries@.take(i + 1);
                assert(t.drop_last() == entries@.take(i as int));
                assert(t.last() == entries@[i as int]);
                if !descended {
                    assert(rows_view(rows@) == mid);
                }
                assert(rows_view(rows@) == start + rows_of(self.dirs@, self.expanded@, t, depth as nat, fuel as nat));
            }
            i = i + 1;
        }
        assert(entries@.take(entries@.len() as int) == entries@);
    }

    /// The rows the Explorer draws, top to bottom, as (path, depth, is_dir).
    pub fn flatten(&self, root: &String) -> (r: Vec<ExplorerRow>)
        ensures
            rows_view(r@) == flatten_spec(self.dirs@, self.expanded@, root@),
    {
        let mut rows: Vec<ExplorerRow> = Vec::new();
        assert(rows_view(rows@) == Seq::<(Seq<char>, nat, bool)>::empty());
        match find_listing(&self.dirs, root) {
            Some(k) => {
                self.push_rows(&self.dirs[k].1, 0, self.dirs.len(), &mut rows);
            },
            None => {},
        }
        rows
    }
}

/// Where a new file or folder goes for the highlighted row: into it when it
/// is a directory, next to it (its parent, or the root when it has none)
/// when it is a file, into the root when nothing is highlighted.
pub open spec fn dir_for_selection_spec(rows: Seq<(Seq<char>, nat, bool)>, selected: int, root: Seq<char>) -> Seq<
    char,
> {
    if 0 <= selected < rows.len() {
        if rows[selected].2 {
            rows[selected].0
        } else {
            match path_parent(rows[selected].0) {
                Some(p) => p,
                None => root,
            }
        }
    } else {
        root
    }
}

pub fn dir_for_selection(rows: &Vec<ExplorerRow>, selected: usize, root: &String) -> (r: String)
    ensures
        r@ == dir_for_selection_spec(rows_view(rows@), selected as int, root@),
        selected < rows@.len() && rows@[selected as int].2 ==> r@ == rows@[selected as int].0@,
        selected < rows@.len() && !rows@[selected as int].2 ==> match path_parent(rows@[selected as int].0@) {
            Some(p) => r@ == p,
            None => r@ == root@,
        },
        selected >= rows@.len() ==> r@ == root@,
{
    assert(rows_view(rows@).len() == rows@.len());
    if selected < rows.len() {
        if rows[selected].2 {
            rows[selected].0.clone()
        } else {
            match parent_path(rows[selected].0.as_str()) {
                Some(p) => p,
                None => root.clone(),
            }
        }
    } else {
        root.clone()
    }
}

/// Removes every entry equal to `x`, keeping the others.
pub(crate) fn remove_all_equal(v: &mut Vec<String>, x: &String)
    ensures
        forall|k: int| 0 <= k < final(v)@.len() ==> (#[trigger] final(v)@[k])@ != x@,
        forall|k: int|
            0 <= k < old(v)@.len() && (#[trigger] old(v)@[k])@ != x@ ==> exists|j: int|
                0 <= j < final(v)@.len() && (#[trigger] final(v)@[j])@ == old(v)@[k]@,
{
    let ghost orig = v@;
    let mut i: usize = 0;
    while i < v.len()
        invariant
            i <= v@.len(),
            forall|k: int| 0 <= k < i ==> (#[trigger] v@[k])@ != x@,
            forall|k: int|
                0 <= k < orig.len() && (#[trigger] orig[k])@ != x@ ==> exists|j: int|
                    0 <= j < v@.len() && (#[trigger] v@[j])@ == orig[k]@,
        decreases v@.len() - i,
    {
        if v[i] == *x {
            let ghost before = v@;
            v.remove(i);
            assert forall|k: int| 0 <= k < orig.len() && (#[trigger] orig[k])@ != x@ implies exists|j: int|
                0 <= j < v@.len() && (#[trigger] v@[j])@ == orig[k]@ by {
                let j0 = choose|j: int| 0 <= j < before.len() && (#[trigger] before[j])@ == orig[k]@;
                if j0 < i {
                    assert(v@[j0] == before[j0]);
                } else {
                    assert(j0 != i);
                    assert(v@[j0 - 1] == before[j0]);
                }
            }
        } else {
            i = i + 1;
        }
    }
}
impl ExplorerModel {
    /// Collapses `dir` when it is expanded, else expands it. Returns whether
    /// it was just expanded without a listing yet (which must then be
    /// requested).
    pub fn toggle_dir(&mut self, dir: &String) -> (r: bool)
        ensures
            final(self).dirs@ == old(self).dirs@,
            final(self).selected == old(self).selected,
            is_expanded(old(self).expanded@, dir@) ==> !is_expanded(final(self).expanded@, dir@) && !r,
            !is_expanded(old(self).expanded@, dir@) ==> is_expanded(final(self).expanded@, dir@) && r == (listing(
                old(self).dirs@,
                dir@,
            ) is None),
    {
        match expanded_position(&self.expanded, dir) {
            Some(_) => {
                remove_all_equal(&mut self.expanded, dir);
                false
            },
            None => {
                let listed = has_listing(&self.dirs, dir);
                self.expanded.push(dir.clone());
                assert(self.expanded@[self.expanded@.len() - 1]@ == dir@);
                !listed
            },
        }
    }
}

} // verus!
