//! The cache of fetched items on local storage.
//!
//! A key names one file under the cache's root, and the file being there is
//! all that says that the item is cached. Asked for a key, the cache serves
//! the file if there is one. Otherwise it has the item fetched, makes room
//! until a tenth of the volume is free, writes the file and serves what was
//! fetched.
//!
//! The cache touches no file. [`LocalCache::get_or_fetch`] takes what just
//! happened and answers with the next thing to do; whoever drives it does
//! that thing under the cache's root and reports back.

use crate::http::HttpError;
use vstd::prelude::*;

verus! {

/// Whether a volume with `available` of `total` bytes free has room for one
/// more item: at least a tenth of it is free.
pub open spec fn has_headroom(available: u64, total: u64) -> bool {
    total > 0 && available * 10 >= total
}

/// Whether a volume with `available` of `total` bytes free has room for one
/// more item.
pub fn enough_space(available: u64, total: u64) -> (enough: bool)
    ensures
        enough == has_headroom(available, total),
{
    total > 0 && available >= total / 10 + (if total % 10 == 0 {
        0
    } else {
        1
    })
}

/// The characters of each component of a path.
pub open spec fn components_of(path: Seq<String>) -> Seq<Seq<char>> {
    path.map_values(|component: String| component@)
}

/// Whether the path `mount` leads to the path `path`: its components are the
/// first components of `path`.
pub open spec fn leads_to(mount: Seq<Seq<char>>, path: Seq<Seq<char>>) -> bool {
    mount.len() <= path.len() && path.subrange(0, mount.len() as int) == mount
}

/// Whether the mount point at `index` of `mounts` is that of the volume which
/// holds `path`: it leads to the path, no mount point that leads to the path
/// is longer, and it is the first of its length.
pub open spec fn holds_path(mounts: Seq<Seq<Seq<char>>>, path: Seq<Seq<char>>, index: int) -> bool {
    &&& 0 <= index < mounts.len()
    &&& leads_to(mounts[index], path)
    &&& forall|j: int|
        0 <= j < mounts.len() && leads_to(#[trigger] mounts[j], path) ==> mounts[j].len()
            <= mounts[index].len()
    &&& forall|j: int|
        0 <= j < index && leads_to(#[trigger] mounts[j], path) ==> mounts[j].len()
            < mounts[index].len()
}

/// The components of each mount point.
pub open spec fn mounts_of(mounts: Seq<Vec<String>>) -> Seq<Seq<Seq<char>>> {
    mounts.map_values(|mount: Vec<String>| components_of(mount@))
}

/// Whether the path `mount` leads to the path `path`.
fn is_prefix(mount: &Vec<String>, path: &Vec<String>) -> (r: bool)
    ensures
        r == leads_to(components_of(mount@), components_of(path@)),
{
    if mount.len() > path.len() {
        return false;
    }
    let ghost m = components_of(mount@);
    let ghost p = components_of(path@);
    let mut i: usize = 0;
    while i < mount.len()
        invariant
            i <= mount@.len() <= path@.len(),
            m == components_of(mount@),
            p == components_of(path@),
            forall|j: int| 0 <= j < i ==> m[j] == p[j],
        decreases mount@.len() - i,
    {
        if !(mount[i] == path[i]) {
            assert(m[i as int] != p.subrange(0, m.len() as int)[i as int]);
            return false;
        }
        i += 1;
    }
    assert(p.subrange(0, m.len() as int) =~= m);
    true
}

/// The volume that holds `path`, among the volumes mounted at `mounts`: the
/// index of the longest mount point that leads to the path, and `None` if and
/// only if none does. Paths are given by their components.
pub fn volume_of(path: &Vec<String>, mounts: &Vec<Vec<String>>) -> (found: Option<usize>)
    ensures
        match found {
            Some(index) => holds_path(mounts_of(mounts@), components_of(path@), index as int),
            None => forall|j: int|
                0 <= j < mounts@.len() ==> !leads_to(
                    #[trigger] mounts_of(mounts@)[j],
                    components_of(path@),
                ),
        },
{
    let ghost all = mounts_of(mounts@);
    let ghost p = components_of(path@);
    let mut found: Option<usize> = None;
    let mut i: usize = 0;
    while i < mounts.len()
        invariant
            i <= mounts@.len(),
            all == mounts_of(mounts@),
            p == components_of(path@),
            match found {
                Some(index) => holds_path(all.subrange(0, i as int), p, index as int),
                None => forall|j: int| 0 <= j < i ==> !leads_to(#[trigger] all[j], p),
            },
        decreases mounts@.len() - i,
    {
        let ghost seen = all.subrange(0, i as int);
        let ghost more = all.subrange(0, i + 1);
        assert(all[i as int] == components_of(mounts@[i as int]@));
        assert forall|j: int| 0 <= j < i implies more[j] == seen[j] by {}
        if is_prefix(&mounts[i], path) {
            let better = match found {
                Some(index) => mounts[index].len() < mounts[i].len(),
                None => true,
            };
            if better {
                found = Some(i);
            }
        }
        proof {
            match found {
                Some(index) => {
                    assert forall|j: int|
                        0 <= j < more.len() && leads_to(#[trigger] more[j], p) implies more[j].len()
                        <= more[index as int].len() by {
                        if j < i {
                            assert(seen[j] == more[j]);
                        }
                    }
                    assert forall|j: int|
                        0 <= j < index && leads_to(#[trigger] more[j], p) implies more[j].len()
                        < more[index as int].len() by {
                        assert(seen[j] == more[j]);
                    }
                },
                None => {},
            }
        }
        i += 1;
    }
    assert(all.subrange(0, i as int) =~= all);
    found
}

/// One entry of the cache's directory.
#[derive(Debug, PartialEq, Eq)]
pub struct DirEntry {
    pub name: String,
    /// Whether the entry is a regular file.
    pub is_file: bool,
}

/// What a [`DirEntry`] says, over characters.
pub struct DirEntryView {
    pub name: Seq<char>,
    pub is_file: bool,
}

impl View for DirEntry {
    type V = DirEntryView;

    open spec fn view(&self) -> DirEntryView {
        DirEntryView { name: self.name@, is_file: self.is_file }
    }
}

/// What each entry of a listing says.
pub open spec fn entries_of(entries: Seq<DirEntry>) -> Seq<DirEntryView> {
    entries.map_values(|e: DirEntry| e@)
}

/// The file that is deleted to make room: the first regular file of the
/// listing, if there is one. Directories are passed over.
pub open spec fn victim(entries: Seq<DirEntryView>) -> Option<Seq<char>>
    decreases entries.len(),
{
    if entries.len() == 0 {
        None
    } else if entries[0].is_file {
        Some(entries[0].name)
    } else {
        victim(entries.drop_first())
    }
}

/// The index of the first regular file of `entries`.
pub fn first_file(entries: &Vec<DirEntry>) -> (found: Option<usize>)
    ensures
        match found {
            Some(index) => {
                &&& index < entries@.len()
                &&& entries@[index as int].is_file
                &&& forall|j: int| 0 <= j < index ==> !entries@[j].is_file
                &&& victim(entries_of(entries@)) == Some(entries@[index as int].name@)
            },
            None => {
                &&& forall|j: int| 0 <= j < entries@.len() ==> !entries@[j].is_file
                &&& victim(entries_of(entries@)) is None
            },
        },
{
    let ghost all = entries_of(entries@);
    let mut i: usize = 0;
    assert(all.subrange(0, all.len() as int) =~= all);
    while i < entries.len()
        invariant
            i <= entries@.len(),
            all == entries_of(entries@),
            forall|j: int| 0 <= j < i ==> !entries@[j].is_file,
            victim(all) == victim(all.subrange(i as int, all.len() as int)),
        decreases entries@.len() - i,
    {
        let ghost rest = all.subrange(i as int, all.len() as int);
        assert(rest[0] == entries@[i as int]@);
        if entries[i].is_file {
            return Some(i);
        }
        assert(rest.drop_first() =~= all.subrange(i + 1, all.len() as int));
        i += 1;
    }
    assert(all.subrange(i as int, all.len() as int).len() == 0);
    None
}

/// Why the cache served nothing.
#[derive(Clone, Copy, Debug, PartialEq, Eq, Structural)]
pub enum CacheError {
    /// The item could not be fetched.
    Fetch(HttpError),
    /// The cached file could not be read.
    Load,
    /// The cache's directory is missing and could not be made.
    Directory,
    /// The free space of the volume could not be read.
    Measure,
    /// The cache's directory could not be listed.
    List,
    /// The volume is short of space and the cache holds no file to delete.
    NothingToEvict,
    /// The file chosen to make room could not be deleted.
    Remove,
    /// The fetched item could not be written.
    Write,
    /// What was reported is not what the cache was waiting for.
    OutOfTurn,
}

/// What happened since the cache last spoke.
#[derive(Debug, PartialEq, Eq)]
pub enum CacheReport {
    /// A caller wants the item with this key.
    Wanted(String),
    /// Whether the file is there.
    Probed(bool),
    /// What the file holds, or `None` where it could not be read.
    Loaded(Option<Vec<u8>>),
    /// What the caller's fetch brought.
    Fetched(Result<Vec<u8>, HttpError>),
    /// Whether the cache's directory is there now.
    DirectoryReady(bool),
    /// The free bytes (first) and the size (second) of the volume, or `None`
    /// where they could not be read.
    Measured(Option<(u64, u64)>),
    /// The entries of the cache's directory in the order in which the system
    /// gives them, or `None` where they could not be read. The entries that
    /// follow the first regular file may be left out.
    Listed(Option<Vec<DirEntry>>),
    /// Whether the file is deleted.
    Removed(bool),
    /// Whether the file is written.
    Written(bool),
}

/// What a [`CacheReport`] says, over characters.
pub enum CacheReportView {
    Wanted(Seq<char>),
    Probed(bool),
    Loaded(Option<Seq<u8>>),
    Fetched(Result<Seq<u8>, HttpError>),
    DirectoryReady(bool),
    Measured(Option<(u64, u64)>),
    Listed(Option<Seq<DirEntryView>>),
    Removed(bool),
    Written(bool),
}

impl View for CacheReport {
    type V = CacheReportView;

    open spec fn view(&self) -> CacheReportView {
        match self {
            CacheReport::Wanted(key) => CacheReportView::Wanted(key@),
            CacheReport::Probed(found) => CacheReportView::Probed(*found),
            CacheReport::Loaded(Some(bytes)) => CacheReportView::Loaded(Some(bytes@)),
            CacheReport::Loaded(None) => CacheReportView::Loaded(None),
            CacheReport::Fetched(Ok(bytes)) => CacheReportView::Fetched(Ok(bytes@)),
            CacheReport::Fetched(Err(error)) => CacheReportView::Fetched(Err(*error)),
            CacheReport::DirectoryReady(ready) => CacheReportView::DirectoryReady(*ready),
            CacheReport::Measured(space) => CacheReportView::Measured(*space),
            CacheReport::Listed(Some(entries)) => CacheReportView::Listed(
                Some(entries_of(entries@)),
            ),
            CacheReport::Listed(None) => CacheReportView::Listed(None),
            CacheReport::Removed(done) => CacheReportView::Removed(*done),
            CacheReport::Written(done) => CacheReportView::Written(*done),
        }
    }
}

/// What the driver is to do next. File names are relative to the cache's root.
#[derive(Debug, PartialEq, Eq)]
pub enum CacheAction {
    /// See whether this file is there and report [`CacheReport::Probed`].
    Probe(String),
    /// Read this file and report [`CacheReport::Loaded`].
    Load(String),
    /// Fetch the item with this key and report [`CacheReport::Fetched`].
    Fetch(String),
    /// Make the cache's directory unless it is there and report
    /// [`CacheReport::DirectoryReady`].
    EnsureDirectory,
    /// Read the free space of the cache's volume and report
    /// [`CacheReport::Measured`].
    Measure,
    /// List the cache's directory and report [`CacheReport::Listed`].
    List,
    /// Delete this file and report [`CacheReport::Removed`].
    Remove(String),
    /// Write these bytes to this file and report [`CacheReport::Written`].
    Write(String, Vec<u8>),
    /// Hand the caller the item, or the reason why there is none.
    Done(Result<Vec<u8>, CacheError>),
}

/// What a [`CacheAction`] says, over characters.
pub enum CacheActionView {
    Probe(Seq<char>),
    Load(Seq<char>),
    Fetch(Seq<char>),
    EnsureDirectory,
    Measure,
    List,
    Remove(Seq<char>),
    Write(Seq<char>, Seq<u8>),
    Done(Result<Seq<u8>, CacheError>),
}

impl View for CacheAction {
    type V = CacheActionView;

    open spec fn view(&self) -> CacheActionView {
        match self {
            CacheAction::Probe(key) => CacheActionView::Probe(key@),
            CacheAction::Load(key) => CacheActionView::Load(key@),
            CacheAction::Fetch(key) => CacheActionView::Fetch(key@),
            CacheAction::EnsureDirectory => CacheActionView::EnsureDirectory,
            CacheAction::Measure => CacheActionView::Measure,
            CacheAction::List => CacheActionView::List,
            CacheAction::Remove(name) => CacheActionView::Remove(name@),
            CacheAction::Write(key, bytes) => CacheActionView::Write(key@, bytes@),
            CacheAction::Done(Ok(bytes)) => CacheActionView::Done(Ok(bytes@)),
            CacheAction::Done(Err(error)) => CacheActionView::Done(Err(*error)),
        }
    }
}

/// What a retrieval is waiting for. The phases from `Preparing` on carry the
/// key and the bytes that were fetched for it.
#[derive(Debug, PartialEq, Eq)]
pub enum CachePhase {
    /// Nothing: no caller is being served.
    Idle,
    /// Whether the file is there.
    Probing(String),
    /// What the file holds.
    Loading(String),
    /// What the fetch brings.
    Fetching(String),
    /// The cache's directory.
    Preparing(String, Vec<u8>),
    /// The free space of the volume.
    Measuring(String, Vec<u8>),
    /// The listing of the cache's directory.
    Listing(String, Vec<u8>),
    /// The deletion of a file.
    Removing(String, Vec<u8>),
    /// The writing of the file.
    Writing(String, Vec<u8>),
}

/// What a [`CachePhase`] says, over characters.
pub enum CachePhaseView {
    Idle,
    Probing(Seq<char>),
    Loading(Seq<char>),
    Fetching(Seq<char>),
    Preparing(Seq<char>, Seq<u8>),
    Measuring(Seq<char>, Seq<u8>),
    Listing(Seq<char>, Seq<u8>),
    Removing(Seq<char>, Seq<u8>),
    Writing(Seq<char>, Seq<u8>),
}

impl View for CachePhase {
    type V = CachePhaseView;

    open spec fn view(&self) -> CachePhaseView {
        match self {
            CachePhase::Idle => CachePhaseView::Idle,
            CachePhase::Probing(key) => CachePhaseView::Probing(key@),
            CachePhase::Loading(key) => CachePhaseView::Loading(key@),
            CachePhase::Fetching(key) => CachePhaseView::Fetching(key@),
            CachePhase::Preparing(key, bytes) => CachePhaseView::Preparing(key@, bytes@),
            CachePhase::Measuring(key, bytes) => CachePhaseView::Measuring(key@, bytes@),
            CachePhase::Listing(key, bytes) => CachePhaseView::Listing(key@, bytes@),
            CachePhase::Removing(key, bytes) => CachePhaseView::Removing(key@, bytes@),
            CachePhase::Writing(key, bytes) => CachePhaseView::Writing(key@, bytes@),
        }
    }
}

impl CachePhaseView {
    /// Ends the retrieval with `error`.
    pub open spec fn fail(error: CacheError) -> (CachePhaseView, CacheActionView) {
        (CachePhaseView::Idle, CacheActionView::Done(Err(error)))
    }

    /// The phase after `report`, and what is to be done next.
    pub open spec fn step(self, report: CacheReportView) -> (CachePhaseView, CacheActionView) {
        match (self, report) {
            (CachePhaseView::Idle, CacheReportView::Wanted(key)) => (
                CachePhaseView::Probing(key),
                CacheActionView::Probe(key),
            ),
            (CachePhaseView::Probing(key), CacheReportView::Probed(found)) => if found {
                (CachePhaseView::Loading(key), CacheActionView::Load(key))
            } else {
                (CachePhaseView::Fetching(key), CacheActionView::Fetch(key))
            },
            (CachePhaseView::Loading(_), CacheReportView::Loaded(Some(bytes))) => (
                CachePhaseView::Idle,
                CacheActionView::Done(Ok(bytes)),
            ),
            (CachePhaseView::Loading(_), CacheReportView::Loaded(None)) => Self::fail(
                CacheError::Load,
            ),
            (CachePhaseView::Fetching(key), CacheReportView::Fetched(Ok(bytes))) => (
                CachePhaseView::Preparing(key, bytes),
                CacheActionView::EnsureDirectory,
            ),
            (CachePhaseView::Fetching(_), CacheReportView::Fetched(Err(error))) => Self::fail(
                CacheError::Fetch(error),
            ),
            (CachePhaseView::Preparing(key, bytes), CacheReportView::DirectoryReady(ready)) => if ready {
                (CachePhaseView::Measuring(key, bytes), CacheActionView::Measure)
            } else {
                Self::fail(CacheError::Directory)
            },
            (CachePhaseView::Measuring(key, bytes), CacheReportView::Measured(Some(space))) => if has_headroom(
                space.0,
                space.1,
            ) {
                (CachePhaseView::Writing(key, bytes), CacheActionView::Write(key, bytes))
            } else {
                (CachePhaseView::Listing(key, bytes), CacheActionView::List)
            },
            (CachePhaseView::Measuring(_, _), CacheReportView::Measured(None)) => Self::fail(
                CacheError::Measure,
            ),
            (CachePhaseView::Listing(key, bytes), CacheReportView::Listed(Some(entries))) => match victim(
                entries,
            ) {
                Some(name) => (
                    CachePhaseView::Removing(key, bytes),
                    CacheActionView::Remove(name),
                ),
                None => Self::fail(CacheError::NothingToEvict),
            },
            (CachePhaseView::Listing(_, _), CacheReportView::Listed(None)) => Self::fail(
                CacheError::List,
            ),
            (CachePhaseView::Removing(key, bytes), CacheReportView::Removed(done)) => if done {
                (CachePhaseView::Measuring(key, bytes), CacheActionView::Measure)
            } else {
                Self::fail(CacheError::Remove)
            },
            (CachePhaseView::Writing(_, bytes), CacheReportView::Written(done)) => if done {
                (CachePhaseView::Idle, CacheActionView::Done(Ok(bytes)))
            } else {
                Self::fail(CacheError::Write)
            },
            _ => Self::fail(CacheError::OutOfTurn),
        }
    }
}

/// The state of one retrieval.
#[derive(Debug, PartialEq, Eq)]
pub struct Retrieval {
    pub phase: CachePhase,
}

impl View for Retrieval {
    type V = CachePhaseView;

    open spec fn view(&self) -> CachePhaseView {
        self.phase@
    }
}

impl Retrieval {
    /// A retrieval that has not begun.
    pub fn new() -> (retrieval: Retrieval)
        ensures
            retrieval@ is Idle,
    {
        Retrieval { phase: CachePhase::Idle }
    }
}

/// The cache under one directory.
#[derive(Debug, PartialEq, Eq)]
pub struct LocalCache {
    root: String,
}

impl LocalCache {
    /// The directory under which the cache keeps its files.
    pub closed spec fn root_view(&self) -> Seq<char> {
        self.root@
    }

    /// A cache under the directory `root`.
    pub fn new(root: String) -> (cache: LocalCache)
        ensures
            cache.root_view() == root@,
    {
        LocalCache { root }
    }

    /// The directory under which the cache keeps its files.
    pub fn root(&self) -> (root: &str)
        ensures
            root@ == self.root_view(),
    {
        self.root.as_str()
    }

    /// Takes what happened in `retrieval` and says what is to be done next.
    ///
    /// A caller who wants an item reports [`CacheReport::Wanted`] and then
    /// carries out each answer and reports its result, until the answer is
    /// [`CacheAction::Done`].
    ///
    /// A file that is there is read and served, and nothing is fetched. For
    /// one that is missing the item is fetched first. Then the directory is
    /// made sure of and the free space is read. While less than a tenth of the
    /// volume is free, the directory is listed and its first regular file is
    /// deleted; with no file left to delete the retrieval fails. Once there is
    /// room the item is written, and only when it is written is it served.
    /// Whatever goes wrong on the way ends the retrieval with its error, and
    /// so does a report out of turn.
    pub fn get_or_fetch(&self, retrieval: &mut Retrieval, report: CacheReport) -> (action:
        CacheAction)
        ensures
            (final(retrieval)@, action@) == old(retrieval)@.step(report@),
    {
        let mut phase = CachePhase::Idle;
        core::mem::swap(&mut retrieval.phase, &mut phase);
        match (phase, report) {
            (CachePhase::Idle, CacheReport::Wanted(key)) => {
                let name = key.clone();
                retrieval.phase = CachePhase::Probing(key);
                CacheAction::Probe(name)
            },
            (CachePhase::Probing(key), CacheReport::Probed(found)) => {
                let name = key.clone();
                if found {
                    retrieval.phase = CachePhase::Loading(key);
                    CacheAction::Load(name)
                } else {
                    retrieval.phase = CachePhase::Fetching(key);
                    CacheAction::Fetch(name)
                }
            },
            (CachePhase::Loading(_), CacheReport::Loaded(Some(bytes))) => CacheAction::Done(
                Ok(bytes),
            ),
            (CachePhase::Loading(_), CacheReport::Loaded(None)) => CacheAction::Done(
                Err(CacheError::Load),
            ),
            (CachePhase::Fetching(key), CacheReport::Fetched(Ok(bytes))) => {
                retrieval.phase = CachePhase::Preparing(key, bytes);
                CacheAction::EnsureDirectory
            },
            (CachePhase::Fetching(_), CacheReport::Fetched(Err(error))) => CacheAction::Done(
                Err(CacheError::Fetch(error)),
            ),
            (CachePhase::Preparing(key, bytes), CacheReport::DirectoryReady(ready)) => {
                if ready {
                    retrieval.phase = CachePhase::Measuring(key, bytes);
                    CacheAction::Measure
                } else {
                    CacheAction::Done(Err(CacheError::Directory))
                }
            },
            (CachePhase::Measuring(key, bytes), CacheReport::Measured(Some(space))) => {
                if enough_space(space.0, space.1) {
                    let name = key.clone();
                    let copy = copy_of(&bytes);
                    retrieval.phase = CachePhase::Writing(key, bytes);
                    CacheAction::Write(name, copy)
                } else {
                    retrieval.phase = CachePhase::Listing(key, bytes);
                    CacheAction::List
                }
            },
            (CachePhase::Measuring(_, _), CacheReport::Measured(None)) => CacheAction::Done(
                Err(CacheError::Measure),
            ),
            (CachePhase::Listing(key, bytes), CacheReport::Listed(Some(entries))) => {
                match first_file(&entries) {
                    Some(index) => {
                        let name = entries[index].name.clone();
                        retrieval.phase = CachePhase::Removing(key, bytes);
                        CacheAction::Remove(name)
                    },
                    None => CacheAction::Done(Err(CacheError::NothingToEvict)),
                }
            },
            (CachePhase::Listing(_, _), CacheReport::Listed(None)) => CacheAction::Done(
                Err(CacheError::List),
            ),
            (CachePhase::Removing(key, bytes), CacheReport::Removed(done)) => {
                if done {
                    retrieval.phase = CachePhase::Measuring(key, bytes);
                    CacheAction::Measure
                } else {
                    CacheAction::Done(Err(CacheError::Remove))
                }
            },
            (CachePhase::Writing(_, bytes), CacheReport::Written(done)) => {
                if done {
                    CacheAction::Done(Ok(bytes))
                } else {
                    CacheAction::Done(Err(CacheError::Write))
                }
            },
            _ => CacheAction::Done(Err(CacheError::OutOfTurn)),
        }
    }
}

/// A copy of `bytes`.
fn copy_of(bytes: &Vec<u8>) -> (copy: Vec<u8>)
    ensures
        copy@ == bytes@,
{
    let copy = bytes.clone();
    assert(copy@ =~= bytes@);
    copy
}

/// Whether `report` can be what a file system with the regular files `disk`
/// under the cache's root reports of `action`. A probe tells whether the file
/// is there, and a file that is read holds what the file system has for it.
/// What a fetch brings, how much space is free, what a listing shows and
/// whether an operation succeeds are open.
pub open spec fn truthful(
    disk: Map<Seq<char>, Seq<u8>>,
    action: CacheActionView,
    report: CacheReportView,
) -> bool {
    match (action, report) {
        (CacheActionView::Probe(key), CacheReportView::Probed(found)) => found
            == disk.contains_key(key),
        (CacheActionView::Load(key), CacheReportView::Loaded(Some(bytes))) => disk.contains_key(
            key,
        ) && bytes == disk[key],
        (CacheActionView::Load(_), CacheReportView::Loaded(None)) => true,
        (CacheActionView::Fetch(_), CacheReportView::Fetched(_)) => true,
        (CacheActionView::EnsureDirectory, CacheReportView::DirectoryReady(_)) => true,
        (CacheActionView::Measure, CacheReportView::Measured(_)) => true,
        (CacheActionView::List, CacheReportView::Listed(_)) => true,
        (CacheActionView::Remove(_), CacheReportView::Removed(_)) => true,
        (CacheActionView::Write(_, _), CacheReportView::Written(_)) => true,
        _ => false,
    }
}

/// The regular files under the cache's root once `action` has been carried
/// out on `disk` and reported as `report`.
pub open spec fn disk_after(
    disk: Map<Seq<char>, Seq<u8>>,
    action: CacheActionView,
    report: CacheReportView,
) -> Map<Seq<char>, Seq<u8>> {
    match (action, report) {
        (CacheActionView::Remove(name), CacheReportView::Removed(true)) => disk.remove(name),
        (CacheActionView::Write(key, bytes), CacheReportView::Written(true)) => disk.insert(
            key,
            bytes,
        ),
        _ => disk,
    }
}

/// A retrieval under way, together with the files it works on.
pub struct Play {
    /// What the retrieval is waiting for.
    pub phase: CachePhaseView,
    /// The regular files under the cache's root.
    pub disk: Map<Seq<char>, Seq<u8>>,
    /// What the driver was last told to do.
    pub pending: CacheActionView,
    /// How often the driver has been told to fetch.
    pub fetches: nat,
    /// How often the driver has been told to delete a file.
    pub removals: nat,
}

impl Play {
    /// The retrieval of `key` from a cache with the files `disk`, right after
    /// the caller has asked.
    pub open spec fn asked(key: Seq<char>, disk: Map<Seq<char>, Seq<u8>>) -> Play {
        Play {
            phase: CachePhaseView::Probing(key),
            disk,
            pending: CacheActionView::Probe(key),
            fetches: 0,
            removals: 0,
        }
    }

    /// The retrieval after `report`, a truthful answer to the pending action.
    pub open spec fn next(self, report: CacheReportView) -> Play {
        let (phase, action) = self.phase.step(report);
        Play {
            phase,
            disk: disk_after(self.disk, self.pending, report),
            pending: action,
            fetches: if action is Fetch {
                self.fetches + 1
            } else {
                self.fetches
            },
            removals: if action is Remove {
                self.removals + 1
            } else {
                self.removals
            },
        }
    }

    /// The retrieval after `reports`; `None` where one of them is not a
    /// truthful report of the action before it.
    pub open spec fn after(self, reports: Seq<CacheReportView>) -> Option<Play>
        decreases reports.len(),
    {
        if reports.len() == 0 {
            Some(self)
        } else if !truthful(self.disk, self.pending, reports[0]) {
            None
        } else {
            self.next(reports[0]).after(reports.drop_first())
        }
    }

    /// Whether the retrieval has ended by serving `bytes`.
    pub open spec fn served(self, bytes: Seq<u8>) -> bool {
        self.pending == CacheActionView::Done(Ok(bytes))
    }

    /// What holds of every retrieval of `key` that began with
    /// [`Play::asked`]: the phase and the pending action belong together and
    /// speak of `key`, and what has been served is what the file holds.
    pub open spec fn coherent(self, key: Seq<char>) -> bool {
        match self.phase {
            CachePhaseView::Idle => match self.pending {
                CacheActionView::Done(Ok(bytes)) => self.disk.contains_key(key) && self.disk[key]
                    == bytes,
                CacheActionView::Done(Err(_)) => true,
                _ => false,
            },
            CachePhaseView::Probing(k) => k == key && self.pending == CacheActionView::Probe(key),
            CachePhaseView::Loading(k) => k == key && self.pending == CacheActionView::Load(key),
            CachePhaseView::Fetching(k) => k == key && self.pending == CacheActionView::Fetch(
                key,
            ),
            CachePhaseView::Preparing(k, _) => k == key && self.pending
                == CacheActionView::EnsureDirectory,
            CachePhaseView::Measuring(k, _) => k == key && self.pending
                == CacheActionView::Measure,
            CachePhaseView::Listing(k, _) => k == key && self.pending == CacheActionView::List,
            CachePhaseView::Removing(k, _) => k == key && self.pending is Remove,
            CachePhaseView::Writing(k, bytes) => k == key && self.pending
                == CacheActionView::Write(key, bytes),
        }
    }
}

/// Coherence is kept from one truthful report to the next, and neither count
/// goes down.
proof fn lemma_next_is_coherent(play: Play, key: Seq<char>, report: CacheReportView)
    requires
        play.coherent(key),
        truthful(play.disk, play.pending, report),
    ensures
        play.next(report).coherent(key),
        play.next(report).fetches >= play.fetches,
        play.next(report).removals >= play.removals,
        !(play.phase is Probing) ==> play.next(report).fetches == play.fetches,
        !(play.phase is Probing) ==> !(play.next(report).phase is Probing),
{
}

/// Coherence is kept over any truthful run, and neither count goes down. A
/// run that has left the probe behind fetches nothing more.
proof fn lemma_after_is_coherent(play: Play, key: Seq<char>, reports: Seq<CacheReportView>)
    requires
        play.coherent(key),
        play.after(reports) is Some,
    ensures
        play.after(reports)->0.coherent(key),
        play.after(reports)->0.fetches >= play.fetches,
        play.after(reports)->0.removals >= play.removals,
        !(play.phase is Probing) ==> play.after(reports)->0.fetches == play.fetches,
    decreases reports.len(),
{
    if reports.len() > 0 {
        lemma_next_is_coherent(play, key, reports[0]);
        lemma_after_is_coherent(play.next(reports[0]), key, reports.drop_first());
    }
}

/// What the cache serves for a key is what the file of that key holds when
/// the retrieval ends: the bytes read back from it, or the bytes just written
/// to it.
pub proof fn lemma_served_bytes_are_cached(
    key: Seq<char>,
    disk: Map<Seq<char>, Seq<u8>>,
    reports: Seq<CacheReportView>,
    bytes: Seq<u8>,
)
    requires
        Play::asked(key, disk).after(reports) is Some,
        Play::asked(key, disk).after(reports)->0.served(bytes),
    ensures
        Play::asked(key, disk).after(reports)->0.disk.contains_key(key),
        Play::asked(key, disk).after(reports)->0.disk[key] == bytes,
{
    lemma_after_is_coherent(Play::asked(key, disk), key, reports);
}

/// A key whose file is there is served from the file: nothing is fetched,
/// nothing is deleted or written, and what is served is what the file holds.
pub proof fn lemma_hit_fetches_nothing(
    key: Seq<char>,
    disk: Map<Seq<char>, Seq<u8>>,
    reports: Seq<CacheReportView>,
)
    requires
        disk.contains_key(key),
        Play::asked(key, disk).after(reports) is Some,
    ensures
        Play::asked(key, disk).after(reports)->0.fetches == 0,
        Play::asked(key, disk).after(reports)->0.removals == 0,
        Play::asked(key, disk).after(reports)->0.disk == disk,
        forall|bytes: Seq<u8>|
            Play::asked(key, disk).after(reports)->0.served(bytes) ==> bytes == disk[key],
{
    let start = Play::asked(key, disk);
    if reports.len() > 0 {
        let probed = start.next(reports[0]);
        let rest = reports.drop_first();
        assert(probed.phase == CachePhaseView::Loading(key));
        if rest.len() > 0 {
            let loaded = probed.next(rest[0]);
            let last = rest.drop_first();
            assert(loaded.phase is Idle);
            assert(loaded.pending is Done);
            if last.len() > 0 {
                assert(!truthful(loaded.disk, loaded.pending, last[0]));
                assert(loaded.after(last) is None);
            } else {
                assert(loaded.after(last) == Some(loaded));
            }
        } else {
            assert(probed.after(rest) == Some(probed));
        }
    }
}

/// A key whose file is missing is fetched exactly once, however long the
/// retrieval goes on.
pub proof fn lemma_miss_fetches_once(
    key: Seq<char>,
    disk: Map<Seq<char>, Seq<u8>>,
    reports: Seq<CacheReportView>,
)
    requires
        !disk.contains_key(key),
        reports.len() > 0,
        Play::asked(key, disk).after(reports) is Some,
    ensures
        Play::asked(key, disk).after(reports)->0.fetches == 1,
{
    let start = Play::asked(key, disk);
    let probed = start.next(reports[0]);
    assert(probed.phase == CachePhaseView::Fetching(key));
    lemma_next_is_coherent(start, key, reports[0]);
    lemma_after_is_coherent(probed, key, reports.drop_first());
}

/// Once a retrieval of a key has served it, a second retrieval of the same
/// key fetches nothing and serves the same bytes, as long as nothing else has
/// touched the files in between.
pub proof fn lemma_second_retrieval_is_a_hit(
    key: Seq<char>,
    disk: Map<Seq<char>, Seq<u8>>,
    first: Seq<CacheReportView>,
    bytes: Seq<u8>,
    second: Seq<CacheReportView>,
)
    requires
        Play::asked(key, disk).after(first) is Some,
        Play::asked(key, disk).after(first)->0.served(bytes),
        Play::asked(key, Play::asked(key, disk).after(first)->0.disk).after(second) is Some,
    ensures
        ({
            let between = Play::asked(key, disk).after(first)->0.disk;
            let end = Play::asked(key, between).after(second)->0;
            &&& end.fetches == 0
            &&& forall|again: Seq<u8>| end.served(again) ==> again == bytes
        }),
{
    lemma_served_bytes_are_cached(key, disk, first, bytes);
    let between = Play::asked(key, disk).after(first)->0.disk;
    lemma_hit_fetches_nothing(key, between, second);
}

/// A retrieval brings no file into being but the one of its key.
pub proof fn lemma_no_other_file_appears(
    play: Play,
    key: Seq<char>,
    reports: Seq<CacheReportView>,
    other: Seq<char>,
)
    requires
        play.coherent(key),
        play.after(reports) is Some,
        other != key,
        !play.disk.contains_key(other),
    ensures
        !play.after(reports)->0.disk.contains_key(other),
    decreases reports.len(),
{
    if reports.len() > 0 {
        lemma_next_is_coherent(play, key, reports[0]);
        lemma_no_other_file_appears(play.next(reports[0]), key, reports.drop_first(), other);
    }
}

/// Two retrievals of different keys, neither of which has a file, fetch
/// twice: once each.
pub proof fn lemma_two_keys_fetch_twice(
    one: Seq<char>,
    other: Seq<char>,
    disk: Map<Seq<char>, Seq<u8>>,
    first: Seq<CacheReportView>,
    second: Seq<CacheReportView>,
)
    requires
        one != other,
        !disk.contains_key(one),
        !disk.contains_key(other),
        first.len() > 0,
        second.len() > 0,
        Play::asked(one, disk).after(first) is Some,
        Play::asked(other, Play::asked(one, disk).after(first)->0.disk).after(second) is Some,
    ensures
        ({
            let middle = Play::asked(one, disk).after(first)->0;
            let end = Play::asked(other, middle.disk).after(second)->0;
            middle.fetches + end.fetches == 2
        }),
{
    lemma_miss_fetches_once(one, disk, first);
    lemma_no_other_file_appears(Play::asked(one, disk), one, first, other);
    let middle = Play::asked(one, disk).after(first)->0;
    lemma_miss_fetches_once(other, middle.disk, second);
}

/// When the volume is short of space, nothing is written before a file has
/// been deleted: a retrieval that learns of the shortage and still serves the
/// item has deleted at least one file since.
pub proof fn lemma_shortage_evicts_before_write(
    play: Play,
    key: Seq<char>,
    reports: Seq<CacheReportView>,
    bytes: Seq<u8>,
)
    requires
        play.coherent(key),
        play.phase is Measuring,
        reports.len() > 0,
        reports[0] matches CacheReportView::Measured(Some(space)) && !has_headroom(
            space.0,
            space.1,
        ),
        play.after(reports) is Some,
        play.after(reports)->0.served(bytes),
    ensures
        play.after(reports)->0.removals > play.removals,
{
    let listing = play.next(reports[0]);
    let rest = reports.drop_first();
    lemma_next_is_coherent(play, key, reports[0]);
    assert(listing.phase is Listing);
    assert(listing.removals == play.removals);
    if rest.len() == 0 {
        assert(listing.after(rest) == Some(listing));
    } else {
        let removing = listing.next(rest[0]);
        let last = rest.drop_first();
        lemma_next_is_coherent(listing, key, rest[0]);
        if removing.pending is Remove {
            lemma_after_is_coherent(removing, key, last);
        } else {
            assert(removing.pending is Done);
            assert(removing.pending matches CacheActionView::Done(Err(_)));
            if last.len() > 0 {
                assert(removing.after(last) is None);
            } else {
                assert(removing.after(last) == Some(removing));
            }
        }
    }
}

/// When the volume is short of space and the cache's directory holds no
/// regular file, the retrieval fails: nothing is written and nothing is
/// served.
pub proof fn lemma_shortage_without_files_fails(
    key: Seq<char>,
    bytes: Seq<u8>,
    space: (u64, u64),
    entries: Seq<DirEntryView>,
)
    requires
        !has_headroom(space.0, space.1),
        forall|i: int| 0 <= i < entries.len() ==> !entries[i].is_file,
    ensures
        ({
            let (listing, list) = CachePhaseView::Measuring(key, bytes).step(
                CacheReportView::Measured(Some(space)),
            );
            let (end, done) = listing.step(CacheReportView::Listed(Some(entries)));
            &&& list == CacheActionView::List
            &&& done == CacheActionView::Done(Err(CacheError::NothingToEvict))
            &&& end is Idle
        }),
{
    lemma_no_file_no_victim(entries);
}

/// A listing without regular files names no file to delete.
proof fn lemma_no_file_no_victim(entries: Seq<DirEntryView>)
    requires
        forall|i: int| 0 <= i < entries.len() ==> !entries[i].is_file,
    ensures
        victim(entries) is None,
    decreases entries.len(),
{
    if entries.len() > 0 {
        let rest = entries.drop_first();
        assert forall|i: int| 0 <= i < rest.len() implies !rest[i].is_file by {
            assert(rest[i] == entries[i + 1]);
        }
        lemma_no_file_no_victim(rest);
    }
}

} // verus!
