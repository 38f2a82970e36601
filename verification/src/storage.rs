use vstd::prelude::*;
use vstd::string::StringExecFns;

use nonempty::NonEmpty;

use crate::paths::{
    file_name_of, file_stem_of, nonempty_clone, nonempty_first, nonempty_get, nonempty_last, nonempty_len,
    nonempty_paths, parent_of, path_file_name, path_components_equal, path_file_stem, path_parent, paths_equal,
    same_path,
};

verus! {

/// Representation of the view data on disk.
#[derive(Debug)]
pub enum FileStorage {
    /// Stored as a range of files.
    Range(NonEmpty<String>),
    /// Stored as a single file.
    Single(String),
}

/// What a [`FileStorage`] holds: its paths, as text.
pub enum StorageView {
    Range(Seq<Seq<char>>),
    Single(Seq<char>),
}

impl View for FileStorage {
    type V = StorageView;

    open spec fn view(&self) -> StorageView {
        match self {
            FileStorage::Range(ne) => StorageView::Range(nonempty_paths(*ne)),
            FileStorage::Single(p) => StorageView::Single(p@),
        }
    }
}

/// Two optional parents are equal: both absent, or both present and equal
/// as paths.
pub open spec fn parents_agree(a: Option<Seq<char>>, b: Option<Seq<char>>) -> bool {
    match (a, b) {
        (None, None) => true,
        (Some(x), Some(y)) => paths_equal(x, y),
        _ => false,
    }
}

/// Every path of the range has the parent of the first one.
pub open spec fn range_shares_parent(paths: Seq<Seq<char>>) -> bool {
    forall|i: int|
        0 <= i < paths.len() ==> #[trigger] parents_agree(path_parent(paths[i]), path_parent(paths[0]))
}

/// The label of a storage can be written: a range whose paths share a
/// parent needs a file name for its first path (whose stem is shown) and
/// for its last.
pub open spec fn label_defined(v: StorageView) -> bool {
    match v {
        StorageView::Single(_) => true,
        StorageView::Range(ps) => range_shares_parent(ps) ==> {
            &&& path_file_name(ps[0]) is Some
            &&& path_file_name(ps.last()) is Some
        },
    }
}

pub open spec fn range_sep() -> Seq<char> {
    seq![' ', '.', '.', ' ']
}

/// The label of a storage: a single file is its path; a range whose paths
/// share a parent is `parent/first .. last` (the stem of the first path and
/// the name of the last), or `first .. last` without a parent; any other
/// range is `*`.
pub open spec fn storage_label(v: StorageView) -> Seq<char> {
    match v {
        StorageView::Single(p) => p,
        StorageView::Range(ps) => if range_shares_parent(ps) {
            let first = path_file_stem(ps[0]).unwrap();
            let last = path_file_name(ps.last()).unwrap();
            match path_parent(ps[0]) {
                Some(parent) => parent + seq!['/'] + first + range_sep() + last,
                None => first + range_sep() + last,
            }
        } else {
            seq!['*']
        },
    }
}

/// Some path of `ps` is equal to `p`.
pub open spec fn some_path_equal(ps: Seq<Seq<char>>, p: Seq<char>) -> bool {
    exists|i: int| 0 <= i < ps.len() && #[trigger] paths_equal(ps[i], p)
}

/// The storage holds a path equal to `p`.
pub open spec fn storage_contains(v: StorageView, p: Seq<char>) -> bool {
    match v {
        StorageView::Single(q) => paths_equal(q, p),
        StorageView::Range(ps) => some_path_equal(ps, p),
    }
}

/// Two lists of paths have the same length and are equal path by path.
pub open spec fn paths_pairwise_equal(ps: Seq<Seq<char>>, qs: Seq<Seq<char>>) -> bool {
    &&& ps.len() == qs.len()
    &&& forall|i: int| 0 <= i < ps.len() ==> #[trigger] paths_equal(ps[i], qs[i])
}

/// Two storages are equal: of the same kind, with paths equal one by one.
pub open spec fn storages_equal(a: StorageView, b: StorageView) -> bool {
    match (a, b) {
        (StorageView::Single(p), StorageView::Single(q)) => paths_equal(p, q),
        (StorageView::Range(ps), StorageView::Range(qs)) => paths_pairwise_equal(ps, qs),
        _ => false,
    }
}

fn text(s: &str) -> (r: String)
    ensures
        r@ == s@,
{
    String::from_str(s)
}

/// Whether the paths of `ne` all have the parent of the first one.
fn shares_parent(ne: &NonEmpty<String>) -> (r: bool)
    ensures
        r == range_shares_parent(nonempty_paths(*ne)),
        nonempty_paths(*ne).len() >= 1,
{
    let ghost ps = nonempty_paths(*ne);
    let n = nonempty_len(ne);
    let first = nonempty_first(ne);
    let parent = parent_of(first.as_str());
    let mut i: usize = 0;
    while i < n
        invariant
            n == ps.len(),
            ps == nonempty_paths(*ne),
            ps.len() >= 1,
            0 <= i <= n,
            parent is None <==> path_parent(ps[0]) is None,
            parent matches Some(s) ==> path_parent(ps[0]) == Some(s@),
            forall|j: int| 0 <= j < i ==> #[trigger] parents_agree(path_parent(ps[j]), path_parent(ps[0])),
        decreases n - i,
    {
        let p = nonempty_get(ne, i);
        let pp = parent_of(p.as_str());
        let agree = match (&pp, &parent) {
            (None, None) => true,
            (Some(a), Some(b)) => same_path(a.as_str(), b.as_str()),
            _ => false,
        };
        if !agree {
            assert(!parents_agree(path_parent(ps[i as int]), path_parent(ps[0])));
            return false;
        }
        i += 1;
    }
    true
}

impl Clone for FileStorage {
    fn clone(&self) -> (r: Self)
        ensures
            r@ == self@,
    {
        match self {
            FileStorage::Range(ne) => FileStorage::Range(nonempty_clone(ne)),
            FileStorage::Single(p) => FileStorage::Single(p.clone()),
        }
    }
}

impl FileStorage {
    /// Whether the storage holds a path equal to `p`.
    pub fn contains(&self, p: &str) -> (r: bool)
        ensures
            r == storage_contains(self@, p@),
    {
        match self {
            FileStorage::Single(buf) => same_path(buf.as_str(), p),
            FileStorage::Range(bufs) => {
                let ghost ps = nonempty_paths(*bufs);
                let n = nonempty_len(bufs);
                let mut i: usize = 0;
                while i < n
                    invariant
                        n == ps.len(),
                        ps == nonempty_paths(*bufs),
                        self@ == StorageView::Range(ps),
                        0 <= i <= n,
                        forall|j: int| 0 <= j < i ==> !#[trigger] paths_equal(ps[j], p@),
                    decreases n - i,
                {
                    let q = nonempty_get(bufs, i);
                    if same_path(q.as_str(), p) {
                        assert(paths_equal(ps[i as int], p@));
                        return true;
                    }
                    i += 1;
                }
                false
            },
        }
    }

    /// The label of the storage, as it is displayed. A range whose paths
    /// share a parent must have a file name for its first path and for its
    /// last.
    pub fn to_string(&self) -> (s: String)
        requires
            label_defined(self@),
        ensures
            s@ == storage_label(self@),
    {
        match self {
            FileStorage::Single(path) => path.clone(),
            FileStorage::Range(paths) => {
                let ghost ps = nonempty_paths(*paths);
                if shares_parent(paths) {
                    let first_path = nonempty_first(paths);
                    let last_path = nonempty_last(paths);
                    let first = file_stem_of(first_path.as_str()).unwrap();
                    let last = file_name_of(last_path.as_str()).unwrap();
                    let sep = text(" .. ");
                    proof {
                        reveal_strlit(" .. ");
                    }
                    match parent_of(first_path.as_str()) {
                        Some(parent) => {
                            let slash = text("/");
                            proof {
                                reveal_strlit("/");
                            }
                            let mut s = parent;
                            s.append(slash.as_str());
                            s.append(first.as_str());
                            s.append(sep.as_str());
                            s.append(last.as_str());
                            s
                        },
                        None => {
                            let mut s = first;
                            s.append(sep.as_str());
                            s.append(last.as_str());
                            s
                        },
                    }
                } else {
                    proof {
                        reveal_strlit("*");
                    }
                    text("*")
                }
            },
        }
    }

    /// The label of the storage, or `None` where it cannot be written (see
    /// [`FileStorage::to_string`]).
    pub fn try_to_string(&self) -> (s: Option<String>)
        ensures
            s is Some <==> label_defined(self@),
            s matches Some(t) ==> t@ == storage_label(self@),
    {
        match self {
            FileStorage::Single(_) => Some(self.to_string()),
            FileStorage::Range(paths) => {
                if shares_parent(paths) {
                    let stem = file_stem_of(nonempty_first(paths).as_str());
                    let name = file_name_of(nonempty_last(paths).as_str());
                    if stem.is_none() || name.is_none() {
                        return None;
                    }
                }
                Some(self.to_string())
            },
        }
    }
}

impl PartialEq for FileStorage {
    fn eq(&self, other: &Self) -> (r: bool) {
        match (self, other) {
            (FileStorage::Single(a), FileStorage::Single(b)) => same_path(a.as_str(), b.as_str()),
            (FileStorage::Range(x), FileStorage::Range(y)) => {
                let ghost ps = nonempty_paths(*x);
                let ghost qs = nonempty_paths(*y);
                let n = nonempty_len(x);
                if n != nonempty_len(y) {
                    return false;
                }
                let mut i: usize = 0;
                while i < n
                    invariant
                        n == ps.len(),
                        n == qs.len(),
                        ps == nonempty_paths(*x),
                        qs == nonempty_paths(*y),
                        self@ == StorageView::Range(ps),
                        other@ == StorageView::Range(qs),
                        0 <= i <= n,
                        forall|j: int| 0 <= j < i ==> #[trigger] paths_equal(ps[j], qs[j]),
                    decreases n - i,
                {
                    if !same_path(nonempty_get(x, i).as_str(), nonempty_get(y, i).as_str()) {
                        assert(!paths_equal(ps[i as int], qs[i as int]));
                        return false;
                    }
                    i += 1;
                }
                true
            },
            _ => false,
        }
    }
}

impl vstd::std_specs::cmp::PartialEqSpecImpl for FileStorage {
    open spec fn obeys_eq_spec() -> bool {
        true
    }

    open spec fn eq_spec(&self, other: &FileStorage) -> bool {
        storages_equal(self@, other@)
    }
}

impl Eq for FileStorage {

}

impl From<String> for FileStorage {
    fn from(p: String) -> (r: FileStorage) {
        FileStorage::Single(p)
    }
}

impl vstd::std_specs::convert::FromSpecImpl<String> for FileStorage {
    open spec fn obeys_from_spec() -> bool {
        true
    }

    open spec fn from_spec(p: String) -> FileStorage {
        FileStorage::Single(p)
    }
}

/// Status of the underlying file displayed by the view.
#[derive(Clone, Debug, PartialEq, Eq)]
pub enum FileStatus {
    /// There is no file being displayed.
    NoFile,
    /// The file is new and unsaved.
    New(FileStorage),
    /// The file is saved and unmodified.
    Saved(FileStorage),
    /// The file has been modified since the last save.
    Modified(FileStorage),
}

/// What a [`FileStatus`] holds, with its storage by its view.
pub enum StatusView {
    NoFile,
    New(StorageView),
    Saved(StorageView),
    Modified(StorageView),
}

impl View for FileStatus {
    type V = StatusView;

    open spec fn view(&self) -> StatusView {
        match self {
            FileStatus::NoFile => StatusView::NoFile,
            FileStatus::New(s) => StatusView::New(s@),
            FileStatus::Saved(s) => StatusView::Saved(s@),
            FileStatus::Modified(s) => StatusView::Modified(s@),
        }
    }
}

/// The status text can be written: its storage, if any, has a label.
pub open spec fn status_label_defined(v: StatusView) -> bool {
    match v {
        StatusView::NoFile => true,
        StatusView::New(s) => label_defined(s),
        StatusView::Saved(s) => label_defined(s),
        StatusView::Modified(s) => label_defined(s),
    }
}

pub open spec fn new_suffix() -> Seq<char> {
    seq![' ', '[', 'n', 'e', 'w', ']']
}

pub open spec fn modified_suffix() -> Seq<char> {
    seq![' ', '[', 'm', 'o', 'd', 'i', 'f', 'i', 'e', 'd', ']']
}

/// The status text: empty without a file, the storage label for a saved
/// file, followed by ` [new]` or ` [modified]` for a new or modified one.
pub open spec fn status_label(v: StatusView) -> Seq<char> {
    match v {
        StatusView::NoFile => Seq::empty(),
        StatusView::Saved(s) => storage_label(s),
        StatusView::New(s) => storage_label(s) + new_suffix(),
        StatusView::Modified(s) => storage_label(s) + modified_suffix(),
    }
}

impl FileStatus {
    /// The status as text.
    pub fn to_string(&self) -> (s: String)
        requires
            status_label_defined(self@),
        ensures
            s@ == status_label(self@),
    {
        match self {
            FileStatus::NoFile => String::new(),
            FileStatus::Saved(storage) => storage.to_string(),
            FileStatus::New(storage) => {
                let mut s = storage.to_string();
                let suffix = text(" [new]");
                proof {
                    reveal_strlit(" [new]");
                }
                s.append(suffix.as_str());
                s
            },
            FileStatus::Modified(storage) => {
                let mut s = storage.to_string();
                let suffix = text(" [modified]");
                proof {
                    reveal_strlit(" [modified]");
                }
                s.append(suffix.as_str());
                s
            },
        }
    }

    /// The status as text, or `None` where the storage label cannot be
    /// written (see [`FileStorage::to_string`]).
    pub fn try_to_string(&self) -> (s: Option<String>)
        ensures
            s is Some <==> status_label_defined(self@),
            s matches Some(t) ==> t@ == status_label(self@),
    {
        let defined = match self {
            FileStatus::NoFile => true,
            FileStatus::New(storage) => storage.try_to_string().is_some(),
            FileStatus::Saved(storage) => storage.try_to_string().is_some(),
            FileStatus::Modified(storage) => storage.try_to_string().is_some(),
        };
        if defined {
            Some(self.to_string())
        } else {
            None
        }
    }
}

/// Every storage equals itself, and holds each of its own paths.
pub proof fn law_storage_reflexive(v: StorageView)
    ensures
        storages_equal(v, v),
        v matches StorageView::Single(p) ==> storage_contains(v, p),
        v matches StorageView::Range(ps) ==> forall|i: int| 0 <= i < ps.len() ==> storage_contains(v, #[trigger] ps[i]),
{
    if let StorageView::Range(ps) = v {
        assert forall|i: int| 0 <= i < ps.len() implies storage_contains(v, #[trigger] ps[i]) by {
            assert(paths_equal(ps[i], ps[i]));
        }
    }
}

/// A range whose paths all have the same parent text shares its parent.
pub proof fn law_same_parent_text_shares_parent(ps: Seq<Seq<char>>)
    requires
        ps.len() >= 1,
        forall|i: int| 0 <= i < ps.len() ==> #[trigger] path_parent(ps[i]) == path_parent(ps[0]),
    ensures
        range_shares_parent(ps),
{
    assert forall|i: int| 0 <= i < ps.len() implies #[trigger] parents_agree(path_parent(ps[i]), path_parent(ps[0])) by {
        assert(path_parent(ps[i]) == path_parent(ps[0]));
    }
}


/// A range is shown as `*` as soon as one of its paths, at any position, has
/// a parent other than the first path's: one has a parent and the other
/// none, or both have parents that are not the same path.
pub proof fn law_range_label_star(ps: Seq<Seq<char>>, i: int)
    requires
        0 <= i < ps.len(),
        path_parent(ps[i]) is None != path_parent(ps[0]) is None
            || (path_parent(ps[i]) is Some && path_parent(ps[0]) is Some
                && path_parent(ps[i]).unwrap() != path_parent(ps[0]).unwrap()
                && !path_components_equal(path_parent(ps[i]).unwrap(), path_parent(ps[0]).unwrap())),
    ensures
        storage_label(StorageView::Range(ps)) == seq!['*'],
{
    assert(!parents_agree(path_parent(ps[i]), path_parent(ps[0])));
}

/// A range whose paths all have the first path's parent is not shown as
/// `*`: its label is the first path's parent and `/` (where it has one),
/// then the first path's stem, and ends with ` .. ` and the last path's
/// name.
pub proof fn law_range_label_shared(ps: Seq<Seq<char>>)
    requires
        ps.len() >= 1,
        forall|i: int| 0 <= i < ps.len() ==> {
            ||| path_parent(#[trigger] ps[i]) is None && path_parent(ps[0]) is None
            ||| path_parent(ps[i]) is Some && path_parent(ps[0]) is Some
                && (path_parent(ps[i]).unwrap() == path_parent(ps[0]).unwrap()
                    || path_components_equal(path_parent(ps[i]).unwrap(), path_parent(ps[0]).unwrap()))
        },
    ensures
        storage_label(StorageView::Range(ps)) != seq!['*'],
        ({
            let label = storage_label(StorageView::Range(ps));
            let stem = path_file_stem(ps[0]).unwrap();
            let name = path_file_name(ps.last()).unwrap();
            let tail = seq![' ', '.', '.', ' '] + name;
            &&& label.len() >= tail.len()
            &&& label.subrange(label.len() - tail.len(), label.len() as int) == tail
            &&& path_parent(ps[0]) matches Some(parent) ==> {
                &&& label.subrange(0, parent.len() + 1 as int) == parent.push('/')
                &&& label.subrange(parent.len() + 1 as int, parent.len() + 1 + stem.len() as int) == stem
            }
            &&& path_parent(ps[0]) is None ==> label.subrange(0, stem.len() as int) == stem
        }),
{
    assert forall|i: int| 0 <= i < ps.len() implies #[trigger] parents_agree(path_parent(ps[i]), path_parent(ps[0])) by {
        let _ = ps[i];
    }
    assert(range_shares_parent(ps));
    assert(seq!['*'].len() == 1);
}

/// A storage holds `p` exactly when one of its paths is `p`: the same text,
/// or the same path by its components.
pub proof fn law_contains_is_path_equality(v: StorageView, p: Seq<char>)
    ensures
        v matches StorageView::Single(q) ==> (storage_contains(v, p) <==> (q == p || path_components_equal(q, p))),
        v matches StorageView::Range(ps) ==> (storage_contains(v, p) <==> exists|i: int|
            0 <= i < ps.len() && (#[trigger] ps[i] == p || path_components_equal(ps[i], p))),
{
    if let StorageView::Range(ps) = v {
        if storage_contains(v, p) {
            let i = choose|i: int| 0 <= i < ps.len() && #[trigger] paths_equal(ps[i], p);
            assert(ps[i] == p || path_components_equal(ps[i], p));
        }
        if exists|i: int| 0 <= i < ps.len() && (#[trigger] ps[i] == p || path_components_equal(ps[i], p)) {
            let i = choose|i: int| 0 <= i < ps.len() && (#[trigger] ps[i] == p || path_components_equal(ps[i], p));
            assert(paths_equal(ps[i], p));
        }
    }
}

} // verus!
