//! Storages and the registry that holds them.
//!
//! A storage owns its repositories by name. The registry,
//! [`MultiStorageController`], owns the live storages by name and the ones
//! read from the registry file that still wait to be loaded. Reading the
//! file, reaching a backend and listing its repositories is the caller's
//! work; the registry decides what the outcomes mean. A storage that could
//! not be reached stays visible as a [`DynamicStorage::BadStorage`] holding
//! its error, and never stops the others from loading.

use vstd::prelude::*;
use vstd::string::*;

use crate::repository::RepositoryConfig;
use crate::text::{chars_eq, chars_of};

verus! {

/// The persisted record from which a storage is rebuilt.
#[derive(Debug)]
pub struct StorageSaver {
    pub id: String,
    pub location: String,
    pub created: u64,
}

impl Clone for StorageSaver {
    fn clone(&self) -> (r: Self)
        ensures
            r == *self,
    {
        StorageSaver { id: self.id.clone(), location: self.location.clone(), created: self.created }
    }
}

/// A storage: a working one with its repositories, or one that could not be
/// reached, with the error.
#[derive(Debug)]
pub enum DynamicStorage {
    LocalStorage { saver: StorageSaver, repositories: Vec<RepositoryConfig> },
    BadStorage { saver: StorageSaver, error: String },
}

/// What went wrong in a storage or registry operation.
#[derive(Debug)]
pub enum StorageError {
    /// A storage of that name is already registered.
    StorageAlreadyExists,
    /// No storage of that name is registered.
    StorageDeleteError,
    /// The storage already holds a repository of that name.
    RepositoryAlreadyExists,
    /// The storage holds no repository of that name.
    RepositoryMissing,
    /// The storage could not be reached; the error it failed with.
    BadStorage(String),
    /// No live storage has that name.
    StorageMissing,
}

/// How much of a storage's data a delete removes.
#[derive(Clone, Copy, Debug, PartialEq, Eq, Structural)]
pub enum PurgeLevel {
    /// Repository data and configs.
    All,
    /// Repository configs only.
    Configs,
    /// Nothing: the storage only leaves the registry.
    RemoveFromList,
}

/// A directory entry that lists a storage.
#[derive(Debug)]
pub struct StorageFile {
    pub name: String,
    pub full_path: String,
    pub mime: String,
    pub directory: bool,
    pub file_size: u64,
    pub modified: Option<u64>,
    pub created: u64,
}

/// A storage taken out of the registry: the storage, the records of those
/// that remain, and the repositories to delete, each with whether its data
/// goes too.
#[derive(Debug)]
pub struct DeletedStorage {
    pub storage: DynamicStorage,
    pub savers: Vec<StorageSaver>,
    pub purge: Vec<(String, bool)>,
}

/// A directory listing: its entries and the directory itself.
#[derive(Debug)]
pub struct StorageDirectoryResponse {
    pub files: Vec<StorageFile>,
    pub directory: StorageFile,
}

/// What a storage answers for a path.
#[derive(Debug)]
pub enum StorageFileResponse {
    /// A file, by its location.
    File(String),
    /// A directory's listing.
    List(StorageDirectoryResponse),
    NotFound,
}

pub open spec fn repo_names(rs: Seq<RepositoryConfig>) -> Seq<Seq<char>> {
    rs.map_values(|r: RepositoryConfig| r.name@)
}

/// Whether a repository list is well formed for the storage named `id`:
/// names unique, each naming that storage.
pub open spec fn repos_wf(rs: Seq<RepositoryConfig>, id: Seq<char>) -> bool {
    (forall|i: int, j: int|
        0 <= i < rs.len() && 0 <= j < rs.len() && i != j ==> rs[i].name@ != rs[j].name@) && (
    forall|i: int| 0 <= i < rs.len() ==> #[trigger] rs[i].storage@ == id)
}

/// The repositories of a list, with those of `outcome` from `i` on added:
/// each that was built, set in storage `id`, unless its name is taken.
pub open spec fn with_loaded(
    rs: Seq<RepositoryConfig>,
    outcome: Seq<Option<RepositoryConfig>>,
    id: String,
    i: int,
) -> Seq<RepositoryConfig>
    decreases outcome.len() - i,
{
    if i < 0 || i >= outcome.len() {
        rs
    } else {
        match outcome[i] {
            Some(r) => if repo_names(rs).contains(r.name@) {
                with_loaded(rs, outcome, id, i + 1)
            } else {
                with_loaded(rs.push(RepositoryConfig { storage: id, ..r }), outcome, id, i + 1)
            },
            None => with_loaded(rs, outcome, id, i + 1),
        }
    }
}

/// The view of a storage listing's outcome.
pub open spec fn outcome_view(o: Result<Vec<Option<RepositoryConfig>>, String>) -> Result<
    Seq<Option<RepositoryConfig>>,
    Seq<char>,
> {
    match o {
        Ok(v) => Ok(v@),
        Err(e) => Err(e@),
    }
}

impl DynamicStorage {
    pub open spec fn saver_spec(&self) -> StorageSaver {
        match self {
            DynamicStorage::LocalStorage { saver, .. } => *saver,
            DynamicStorage::BadStorage { saver, .. } => *saver,
        }
    }

    /// The storage's name.
    pub open spec fn name_spec(&self) -> Seq<char> {
        self.saver_spec().id@
    }

    /// The repositories of the storage; none for one that could not be reached.
    pub open spec fn repos(&self) -> Seq<RepositoryConfig> {
        match self {
            DynamicStorage::LocalStorage { repositories, .. } => repositories@,
            DynamicStorage::BadStorage { .. } => Seq::empty(),
        }
    }

    pub open spec fn wf(&self) -> bool {
        repos_wf(self.repos(), self.name_spec())
    }

    /// Whether `after` is this storage once the repositories that its
    /// listing built are added. A failed listing, or a storage that could
    /// not be reached, leaves it as it is.
    pub open spec fn loads_to(
        self,
        outcome: Result<Seq<Option<RepositoryConfig>>, Seq<char>>,
        after: DynamicStorage,
    ) -> bool {
        match self {
            DynamicStorage::LocalStorage { saver, repositories } => match outcome {
                Ok(list) => after matches DynamicStorage::LocalStorage { saver: s2, repositories: r2 }
                    && s2 == saver && r2@ == with_loaded(repositories@, list, saver.id, 0),
                Err(_) => after == self,
            },
            DynamicStorage::BadStorage { .. } => after == self,
        }
    }

    /// The record that the storage is rebuilt from.
    pub fn storage_config(&self) -> (r: StorageSaver)
        ensures
            r == self.saver_spec(),
    {
        match self {
            DynamicStorage::LocalStorage { saver, .. } => saver.clone(),
            DynamicStorage::BadStorage { saver, .. } => saver.clone(),
        }
    }

    /// The position of the repository named `name`.
    fn repository_position(&self, name: &str) -> (r: Option<usize>)
        ensures
            match r {
                Some(i) => i < self.repos().len() && self.repos()[i as int].name@ == name@,
                None => !repo_names(self.repos()).contains(name@),
            },
    {
        match self {
            DynamicStorage::BadStorage { .. } => None,
            DynamicStorage::LocalStorage { repositories, .. } => {
                let t = chars_of(name);
                let mut i: usize = 0;
                while i < repositories.len()
                    invariant
                        i <= repositories@.len(),
                        t@ == name@,
                        self.repos() == repositories@,
                        forall|k: int| 0 <= k < i ==> repositories@[k].name@ != name@,
                    decreases repositories@.len() - i,
                {
                    if chars_eq(&chars_of(repositories[i].name.as_str()), &t) {
                        return Some(i);
                    }
                    i = i + 1;
                }
                proof {
                    if repo_names(repositories@).contains(name@) {
                        let k = choose|k: int|
                            0 <= k < repo_names(repositories@).len() && repo_names(
                                repositories@,
                            )[k] == name@;
                        assert(repositories@[k].name@ == name@);
                    }
                }
                None
            },
        }
    }

    /// The repository named `name`.
    pub fn get_repository(&self, name: &str) -> (r: Option<RepositoryConfig>)
        ensures
            match r {
                Some(c) => c.name@ == name@ && self.repos().contains(c),
                None => !repo_names(self.repos()).contains(name@),
            },
    {
        match self.repository_position(name) {
            Some(i) => match self {
                DynamicStorage::LocalStorage { repositories, .. } => {
                    let c = repositories[i].clone();
                    assert(self.repos()[i as int] == c);
                    Some(c)
                },
                DynamicStorage::BadStorage { .. } => None,
            },
            None => None,
        }
    }

    /// The names of the storage's repositories.
    pub fn repository_names(&self) -> (r: Vec<String>)
        ensures
            r@.map_values(|s: String| s@) == repo_names(self.repos()),
    {
        let mut out: Vec<String> = Vec::new();
        match self {
            DynamicStorage::BadStorage { .. } => {
                assert(out@.map_values(|s: String| s@) =~= repo_names(self.repos()));
            },
            DynamicStorage::LocalStorage { repositories, .. } => {
                let mut i: usize = 0;
                while i < repositories.len()
                    invariant
                        i <= repositories@.len(),
                        out@.map_values(|s: String| s@) == repo_names(repositories@.take(i as int)),
                    decreases repositories@.len() - i,
                {
                    let ghost before = out@.map_values(|s: String| s@);
                    out.push(repositories[i].name.clone());
                    assert(out@.map_values(|s: String| s@) =~= before.push(repositories@[i as int].name@));
                    i = i + 1;
                    assert(repositories@.take(i as int) =~= repositories@.take(i - 1).push(
                        repositories@[i - 1],
                    ));
                    assert(out@.map_values(|s: String| s@) =~= repo_names(
                        repositories@.take(i as int),
                    ));
                }
                assert(repositories@.take(i as int) =~= repositories@);
            },
        }
        out
    }

    /// Adds a repository, set in this storage. Fails on a storage that could
    /// not be reached, and where the name is taken.
    pub fn add_repository(&mut self, config: RepositoryConfig) -> (r: Result<(), StorageError>)
        requires
            old(self).wf(),
        ensures
            final(self).wf(),
            final(self).saver_spec() == old(self).saver_spec(),
            (*old(self)) is BadStorage ==> (r matches Err(StorageError::BadStorage(_))) && *final(self)
                == *old(self),
            (*old(self)) is LocalStorage && repo_names(old(self).repos()).contains(config.name@) ==> (
            r matches Err(StorageError::RepositoryAlreadyExists)) && *final(self) == *old(self),
            (*old(self)) is LocalStorage && !repo_names(old(self).repos()).contains(config.name@) ==> (
            r is Ok) && (*final(self)) is LocalStorage && final(self).repos() == old(self).repos().push(
                RepositoryConfig { storage: old(self).saver_spec().id, ..config },
            ),
    {
        if let Some(i) = self.repository_position(config.name.as_str()) {
            assert(repo_names(self.repos())[i as int] == config.name@);
            return Err(StorageError::RepositoryAlreadyExists);
        }
        match self {
            DynamicStorage::BadStorage { error, .. } => Err(StorageError::BadStorage(error.clone())),
            DynamicStorage::LocalStorage { saver, repositories } => {
                let ghost before = repositories@;
                let mut c = config;
                c.storage = saver.id.clone();
                repositories.push(c);
                proof {
                    assert forall|i: int, j: int|
                        0 <= i < repositories@.len() && 0 <= j < repositories@.len() && i != j
                            implies repositories@[i].name@ != repositories@[j].name@ by {
                        if i == before.len() as int {
                            assert(repo_names(before)[j] == before[j].name@);
                        }
                        if j == before.len() as int {
                            assert(repo_names(before)[i] == before[i].name@);
                        }
                    }
                }
                Ok(())
            },
        }
    }

    /// Adds the repositories that the storage's listing built: each that was
    /// built and whose name is free. A failed listing, and a storage that
    /// could not be reached, are left as they are.
    pub fn load_repositories(&mut self, outcome: Result<Vec<Option<RepositoryConfig>>, String>)
        requires
            old(self).wf(),
        ensures
            final(self).wf(),
            old(self).loads_to(outcome_view(outcome), *final(self)),
    {
        match outcome {
            Err(_) => {},
            Ok(list) => {
                if let DynamicStorage::BadStorage { .. } = self {
                    return;
                }
                let ghost full = list@;
                let ghost orig = self.repos();
                let ghost saver = self.saver_spec();
                let mut list = list;
                let n = list.len();
                let mut k: usize = 0;
                while list.len() > 0
                    invariant
                        self.wf(),
                        (*self) is LocalStorage,
                        self.saver_spec() == saver,
                        k <= full.len(),
                        full.len() == n,
                        list@ == full.skip(k as int),
                        with_loaded(orig, full, saver.id, 0) == with_loaded(
                            self.repos(),
                            full,
                            saver.id,
                            k as int,
                        ),
                    decreases list@.len(),
                {
                    let item = list.remove(0);
                    assert(item == full[k as int]);
                    if let Some(c) = item {
                        let _ = self.add_repository(c);
                    }
                    k = k + 1;
                    assert(list@ =~= full.skip(k as int));
                }
                assert(k == full.len());
            },
        }
    }

    /// Takes the repository named `name` out of the storage.
    pub fn remove_repository(&mut self, name: &str) -> (r: Option<RepositoryConfig>)
        requires
            old(self).wf(),
        ensures
            final(self).wf(),
            final(self).saver_spec() == old(self).saver_spec(),
            (*final(self)) is LocalStorage <==> (*old(self)) is LocalStorage,
            match r {
                Some(c) => c.name@ == name@ && exists|i: int|
                    0 <= i < old(self).repos().len() && old(self).repos()[i] == c && final(self).repos() == old(self).repos().remove(i),
                None => !repo_names(old(self).repos()).contains(name@) && *final(self) == *old(self),
            },
    {
        match self.repository_position(name) {
            None => None,
            Some(i) => match self {
                DynamicStorage::BadStorage { .. } => None,
                DynamicStorage::LocalStorage { repositories, .. } => {
                    let ghost before = repositories@;
                    let c = repositories.remove(i);
                    proof {
                        assert(before[i as int] == c);
                        assert forall|a: int, b: int|
                            0 <= a < repositories@.len() && 0 <= b < repositories@.len() && a != b
                                implies repositories@[a].name@ != repositories@[b].name@ by {
                            let a0 = if a < i { a } else { a + 1 };
                            let b0 = if b < i { b } else { b + 1 };
                            assert(repositories@[a] == before[a0]);
                            assert(repositories@[b] == before[b0]);
                        }
                        assert forall|a: int| 0 <= a < repositories@.len() implies #[trigger] repositories@[a].storage@ == self.name_spec() by {
                            let a0 = if a < i { a } else { a + 1 };
                            assert(repositories@[a] == before[a0]);
                        }
                    }
                    Some(c)
                },
            },
        }
    }

    /// Replaces the repository of the same name by `config`: the old one is
    /// taken out and the new one put in, never changed in place.
    pub fn update_repository(&mut self, config: RepositoryConfig) -> (r: Result<(), StorageError>)
        requires
            old(self).wf(),
        ensures
            final(self).wf(),
            final(self).saver_spec() == old(self).saver_spec(),
            r is Ok <==> repo_names(old(self).repos()).contains(config.name@),
            r is Ok ==> exists|i: int|
                0 <= i < old(self).repos().len() && old(self).repos()[i].name@ == config.name@
                    && final(self).repos() == old(self).repos().remove(i).push(
                    RepositoryConfig { storage: old(self).saver_spec().id, ..config },
                ),
            r is Err ==> *final(self) == *old(self) && (r matches Err(StorageError::RepositoryMissing)),
    {
        let ghost old_repos = self.repos();
        match self.remove_repository(config.name.as_str()) {
            None => Err(StorageError::RepositoryMissing),
            Some(c) => {
                let ghost mid = self.repos();
                proof {
                    let i = choose|i: int|
                        0 <= i < old_repos.len() && old_repos[i] == c && mid == old_repos.remove(i);
                    assert(repo_names(old_repos)[i] == config.name@);
                    assert forall|j: int| 0 <= j < mid.len() implies repo_names(mid)[j] != config.name@ by {
                        let j0 = if j < i { j } else { j + 1 };
                        assert(mid[j] == old_repos[j0]);
                    }
                }
                let r = self.add_repository(config);
                assert(!repo_names(mid).contains(config.name@));
                r
            },
        }
    }
}

/// The live storages and those that wait to be loaded.
pub struct MultiStorageController {
    storages: Vec<DynamicStorage>,
    unloaded_storages: Vec<DynamicStorage>,
}

/// The first storage at or after `i` named `n`.
pub open spec fn storage_from(s: Seq<DynamicStorage>, n: Seq<char>, i: int) -> Option<DynamicStorage>
    decreases s.len() - i,
{
    if i < 0 || i >= s.len() {
        None
    } else if s[i].name_spec() == n {
        Some(s[i])
    } else {
        storage_from(s, n, i + 1)
    }
}

/// The storage named `n`.
pub open spec fn storage_named(s: Seq<DynamicStorage>, n: Seq<char>) -> Option<DynamicStorage> {
    storage_from(s, n, 0)
}

pub open spec fn storage_names(s: Seq<DynamicStorage>) -> Seq<Seq<char>> {
    s.map_values(|d: DynamicStorage| d.name_spec())
}

pub open spec fn savers_of(s: Seq<DynamicStorage>) -> Seq<StorageSaver> {
    s.map_values(|d: DynamicStorage| d.saver_spec())
}

pub open spec fn storages_wf(s: Seq<DynamicStorage>) -> bool {
    (forall|i: int, j: int|
        0 <= i < s.len() && 0 <= j < s.len() && i != j ==> s[i].name_spec() != s[j].name_spec())
        && (forall|i: int| 0 <= i < s.len() ==> #[trigger] s[i].wf())
}

/// The storages once `d` is put in: in the place of the one of its name,
/// or after the others.
pub open spec fn attached(s: Seq<DynamicStorage>, d: DynamicStorage) -> Seq<DynamicStorage> {
    if exists|i: int| 0 <= i < s.len() && s[i].name_spec() == d.name_spec() {
        let i = choose|i: int| 0 <= i < s.len() && s[i].name_spec() == d.name_spec();
        s.update(i, d)
    } else {
        s.push(d)
    }
}

proof fn lemma_storage_skip(s: Seq<DynamicStorage>, n: Seq<char>, j: int, i: int)
    requires
        0 <= j <= i <= s.len(),
        forall|k: int| j <= k < i ==> s[k].name_spec() != n,
    ensures
        storage_from(s, n, j) == storage_from(s, n, i),
    decreases i - j,
{
    if j < i {
        lemma_storage_skip(s, n, j + 1, i);
    }
}

proof fn lemma_storage_absent(s: Seq<DynamicStorage>, n: Seq<char>)
    requires
        forall|k: int| 0 <= k < s.len() ==> s[k].name_spec() != n,
    ensures
        storage_named(s, n) is None,
{
    lemma_storage_skip(s, n, 0, s.len() as int);
}

proof fn lemma_storage_at(s: Seq<DynamicStorage>, i: int)
    requires
        storages_wf(s),
        0 <= i < s.len(),
    ensures
        storage_named(s, s[i].name_spec()) == Some(s[i]),
{
    lemma_storage_skip(s, s[i].name_spec(), 0, i);
}

/// Looking a name up finds the storage of that name, if there is one.
proof fn lemma_storage_lookup(s: Seq<DynamicStorage>, n: Seq<char>)
    requires
        storages_wf(s),
    ensures
        (exists|i: int| 0 <= i < s.len() && s[i].name_spec() == n) ==> storage_named(s, n) == Some(
            s[choose|i: int| 0 <= i < s.len() && s[i].name_spec() == n],
        ),
        !(exists|i: int| 0 <= i < s.len() && s[i].name_spec() == n) ==> storage_named(s, n) is None,
{
    if exists|i: int| 0 <= i < s.len() && s[i].name_spec() == n {
        let i = choose|i: int| 0 <= i < s.len() && s[i].name_spec() == n;
        lemma_storage_at(s, i);
    } else {
        lemma_storage_absent(s, n);
    }
}

/// Putting a storage in keeps the registry well formed, finds it under its
/// name, and leaves every other name as it was.
pub proof fn lemma_attach_isolated(s: Seq<DynamicStorage>, d: DynamicStorage, n: Seq<char>)
    requires
        storages_wf(s),
        d.wf(),
    ensures
        storages_wf(attached(s, d)),
        storage_named(attached(s, d), d.name_spec()) == Some(d),
        n != d.name_spec() ==> storage_named(attached(s, d), n) == storage_named(s, n),
{
    let t = attached(s, d);
    if exists|i: int| 0 <= i < s.len() && s[i].name_spec() == d.name_spec() {
        let i = choose|i: int| 0 <= i < s.len() && s[i].name_spec() == d.name_spec();
        assert(t == s.update(i, d));
        assert forall|a: int, b: int|
            0 <= a < t.len() && 0 <= b < t.len() && a != b implies t[a].name_spec()
            != t[b].name_spec() by {
        }
        assert(storages_wf(t));
        lemma_storage_at(t, i);
        lemma_storage_lookup(s, n);
        lemma_storage_lookup(t, n);
        if n != d.name_spec() {
            if exists|k: int| 0 <= k < s.len() && s[k].name_spec() == n {
                let k = choose|k: int| 0 <= k < s.len() && s[k].name_spec() == n;
                assert(t[k].name_spec() == n);
                let k2 = choose|k: int| 0 <= k < t.len() && t[k].name_spec() == n;
                assert(k2 != i);
                assert(s[k2].name_spec() == n);
            } else {
                assert forall|k: int| 0 <= k < t.len() implies t[k].name_spec() != n by {
                    if k != i {
                        assert(t[k] == s[k]);
                    }
                }
            }
        }
    } else {
        assert(t == s.push(d));
        assert forall|a: int, b: int|
            0 <= a < t.len() && 0 <= b < t.len() && a != b implies t[a].name_spec()
            != t[b].name_spec() by {
            if a == s.len() as int {
                assert(s[b].name_spec() != d.name_spec());
            }
            if b == s.len() as int {
                assert(s[a].name_spec() != d.name_spec());
            }
        }
        assert(storages_wf(t));
        lemma_storage_at(t, s.len() as int);
        lemma_storage_lookup(s, n);
        lemma_storage_lookup(t, n);
        if n != d.name_spec() {
            if exists|k: int| 0 <= k < s.len() && s[k].name_spec() == n {
                let k = choose|k: int| 0 <= k < s.len() && s[k].name_spec() == n;
                assert(t[k].name_spec() == n);
                let k2 = choose|k: int| 0 <= k < t.len() && t[k].name_spec() == n;
                assert(k2 != s.len() as int);
                assert(s[k2].name_spec() == n);
            } else {
                assert forall|k: int| 0 <= k < t.len() implies t[k].name_spec() != n by {
                    if k < s.len() {
                        assert(t[k] == s[k]);
                    }
                }
            }
        }
    }
}

/// Whether `after` and `r` are what adding `config` to `d` gives.
pub open spec fn adds_repository(
    d: DynamicStorage,
    config: RepositoryConfig,
    after: DynamicStorage,
    r: Result<(), StorageError>,
) -> bool {
    after.saver_spec() == d.saver_spec() && if d is BadStorage {
        (r matches Err(StorageError::BadStorage(_))) && after == d
    } else if repo_names(d.repos()).contains(config.name@) {
        (r matches Err(StorageError::RepositoryAlreadyExists)) && after == d
    } else {
        (r is Ok) && after is LocalStorage && after.repos() == d.repos().push(
            RepositoryConfig { storage: d.saver_spec().id, ..config },
        )
    }
}

/// Whether `after` and `r` are what replacing the repository named like
/// `config` in `d` gives: the old one taken out, `config` put in.
pub open spec fn replaces_repository(
    d: DynamicStorage,
    config: RepositoryConfig,
    after: DynamicStorage,
    r: Result<(), StorageError>,
) -> bool {
    after.saver_spec() == d.saver_spec() && if repo_names(d.repos()).contains(config.name@) {
        (r is Ok) && exists|i: int|
            0 <= i < d.repos().len() && d.repos()[i].name@ == config.name@ && after.repos()
                == d.repos().remove(i).push(RepositoryConfig { storage: d.saver_spec().id, ..config })
    } else {
        (r matches Err(StorageError::RepositoryMissing)) && after == d
    }
}

impl MultiStorageController {
    /// The live storages.
    pub closed spec fn live(&self) -> Seq<DynamicStorage> {
        self.storages@
    }

    /// The storages that wait to be loaded.
    pub closed spec fn unloaded(&self) -> Seq<DynamicStorage> {
        self.unloaded_storages@
    }

    pub open spec fn wf(&self) -> bool {
        storages_wf(self.live()) && forall|i: int|
            0 <= i < self.unloaded().len() ==> #[trigger] self.unloaded()[i].wf()
    }

    /// A registry with no live storage, whose storages read from the
    /// registry file, each rebuilt or standing as a bad storage, wait to be loaded.
    pub fn init(reconstructed: Vec<DynamicStorage>) -> (r: MultiStorageController)
        requires
            forall|i: int| 0 <= i < reconstructed@.len() ==> #[trigger] reconstructed@[i].wf(),
        ensures
            r.wf(),
            r.live().len() == 0,
            r.unloaded() == reconstructed@,
    {
        MultiStorageController { storages: Vec::new(), unloaded_storages: reconstructed }
    }

    /// Hands out the storages that wait to be loaded, leaving none waiting.
    pub fn take_unloaded(&mut self) -> (r: Vec<DynamicStorage>)
        requires
            old(self).wf(),
        ensures
            final(self).wf(),
            r@ == old(self).unloaded(),
            final(self).unloaded().len() == 0,
            final(self).live() == old(self).live(),
    {
        let mut taken: Vec<DynamicStorage> = Vec::new();
        std::mem::swap(&mut taken, &mut self.unloaded_storages);
        taken
    }

    /// The position of the live storage named `name`.
    fn position(&self, name: &str) -> (r: Option<usize>)
        requires
            self.wf(),
        ensures
            match r {
                Some(i) => i < self.live().len() && self.live()[i as int].name_spec() == name@
                    && storage_named(self.live(), name@) == Some(self.live()[i as int]),
                None => storage_named(self.live(), name@) is None && forall|k: int|
                    0 <= k < self.live().len() ==> self.live()[k].name_spec() != name@,
            },
    {
        let t = chars_of(name);
        let mut i: usize = 0;
        while i < self.storages.len()
            invariant
                self.wf(),
                i <= self.storages@.len(),
                t@ == name@,
                forall|k: int| 0 <= k < i ==> self.storages@[k].name_spec() != name@,
            decreases self.storages@.len() - i,
        {
            let saver = self.storages[i].storage_config();
            if chars_eq(&chars_of(saver.id.as_str()), &t) {
                proof {
                    lemma_storage_at(self.storages@, i as int);
                }
                return Some(i);
            }
            i = i + 1;
        }
        proof {
            lemma_storage_absent(self.storages@, name@);
        }
        None
    }

    /// Whether a live storage is named `name`.
    pub fn does_storage_exist(&self, name: &str) -> (r: bool)
        requires
            self.wf(),
        ensures
            r == storage_named(self.live(), name@) is Some,
    {
        self.position(name).is_some()
    }

    /// The live storage named `name`.
    pub fn get_storage_by_name(&self, name: &str) -> (r: Option<&DynamicStorage>)
        requires
            self.wf(),
        ensures
            match r {
                Some(d) => storage_named(self.live(), name@) == Some(*d),
                None => storage_named(self.live(), name@) is None,
            },
    {
        match self.position(name) {
            Some(i) => Some(&self.storages[i]),
            None => None,
        }
    }

    /// Puts a storage in the live registry, in the place of the one of its
    /// name if there is one.
    fn attach(&mut self, d: DynamicStorage)
        requires
            old(self).wf(),
            d.wf(),
        ensures
            final(self).wf(),
            final(self).live() == attached(old(self).live(), d),
            final(self).unloaded() == old(self).unloaded(),
    {
        let saver = d.storage_config();
        let ghost old_live = self.live();
        let ghost old_unloaded = self.unloaded();
        proof {
            lemma_attach_isolated(old_live, d, d.name_spec());
        }
        match self.position(saver.id.as_str()) {
            Some(i) => {
                proof {
                    assert(exists|k: int|
                        0 <= k < self.live().len() && self.live()[k].name_spec() == d.name_spec());
                    let k = choose|k: int|
                        0 <= k < self.live().len() && self.live()[k].name_spec() == d.name_spec();
                    assert(k == i);
                    lemma_attach_isolated(self.live(), d, d.name_spec());
                }
                self.storages.set(i, d);
            },
            None => {
                self.storages.push(d);
            },
        }
        assert(self.live() == attached(old_live, d));
        assert(storages_wf(self.live()));
        assert(self.unloaded() == old_unloaded);
    }

    /// Loads a storage that waited: adds the repositories that its listing
    /// built and puts it in the live registry. A storage that could not be
    /// reached goes in as it is, so that its error stays visible; no outcome
    /// touches any other storage.
    pub fn load_storage(
        &mut self,
        storage: DynamicStorage,
        outcome: Result<Vec<Option<RepositoryConfig>>, String>,
    )
        requires
            old(self).wf(),
            storage.wf(),
        ensures
            final(self).wf(),
            final(self).unloaded() == old(self).unloaded(),
            exists|d: DynamicStorage|
                storage.loads_to(outcome_view(outcome), d) && d.wf() && final(self).live()
                    == attached(old(self).live(), d),
    {
        let mut d = storage;
        d.load_repositories(outcome);
        self.attach(d);
    }

    /// The records of the live storages and `saver`: what the registry file
    /// holds once `saver` is created. Fails where the name is taken.
    pub fn check_create(&self, saver: &StorageSaver) -> (r: Result<Vec<StorageSaver>, StorageError>)
        requires
            self.wf(),
        ensures
            storage_named(self.live(), saver.id@) is Some ==> r matches Err(
                StorageError::StorageAlreadyExists,
            ),
            storage_named(self.live(), saver.id@) is None ==> (r matches Ok(v) && v@ == savers_of(
                self.live(),
            ).push(*saver)),
    {
        if self.position(saver.id.as_str()).is_some() {
            return Err(StorageError::StorageAlreadyExists);
        }
        let mut v = self.storage_savers();
        v.push(saver.clone());
        Ok(v)
    }

    /// Adds a new storage to the live registry, once the records from
    /// [`Self::check_create`] are persisted. Fails, changing nothing, where
    /// the name is taken: of two creations of one name, one wins.
    pub fn create_storage(&mut self, storage: DynamicStorage) -> (r: Result<(), StorageError>)
        requires
            old(self).wf(),
            storage.wf(),
        ensures
            final(self).wf(),
            final(self).unloaded() == old(self).unloaded(),
            storage_named(old(self).live(), storage.name_spec()) is Some ==> (r matches Err(
                StorageError::StorageAlreadyExists,
            )) && final(self).live() == old(self).live(),
            storage_named(old(self).live(), storage.name_spec()) is None ==> (r is Ok) && final(self).live() == old(self).live().push(storage),
    {
        let saver = storage.storage_config();
        if self.position(saver.id.as_str()).is_some() {
            return Err(StorageError::StorageAlreadyExists);
        }
        let ghost old_live = self.live();
        let ghost old_unloaded = self.unloaded();
        proof {
            lemma_attach_isolated(old_live, storage, storage.name_spec());
            assert(!exists|k: int|
                0 <= k < old_live.len() && old_live[k].name_spec() == storage.name_spec());
            assert(attached(old_live, storage) == old_live.push(storage));
        }
        self.storages.push(storage);
        assert(self.live() == attached(old_live, storage));
        assert(storages_wf(self.live()));
        assert(self.unloaded() == old_unloaded);
        Ok(())
    }

    /// Adds a storage that already holds data: its repositories, as its
    /// listing built them, are loaded, then it goes live as a new storage
    /// does. Fails, changing nothing, where the name is taken.
    pub fn recover_storage(
        &mut self,
        storage: DynamicStorage,
        outcome: Result<Vec<Option<RepositoryConfig>>, String>,
    ) -> (r: Result<(), StorageError>)
        requires
            old(self).wf(),
            storage.wf(),
        ensures
            final(self).wf(),
            final(self).unloaded() == old(self).unloaded(),
            storage_named(old(self).live(), storage.name_spec()) is Some ==> (r matches Err(
                StorageError::StorageAlreadyExists,
            )) && final(self).live() == old(self).live(),
            storage_named(old(self).live(), storage.name_spec()) is None ==> (r is Ok) && exists|
                d: DynamicStorage,
            |
                storage.loads_to(outcome_view(outcome), d) && d.wf() && final(self).live() == old(self).live().push(d),
    {
        let mut d = storage;
        d.load_repositories(outcome);
        proof {
            lemma_load_keeps_name(storage, outcome_view(outcome), d);
        }
        self.create_storage(d)
    }

    /// Takes the storage named `name` out of the live registry; hands it
    /// back with the records of the storages that remain, which the registry
    /// file is to hold, and the repositories to delete at `purge_level`.
    pub fn delete_storage(&mut self, name: &str, purge_level: PurgeLevel) -> (r: Result<
        DeletedStorage,
        StorageError,
    >)
        requires
            old(self).wf(),
        ensures
            final(self).wf(),
            final(self).unloaded() == old(self).unloaded(),
            storage_named(old(self).live(), name@) is None ==> (r matches Err(
                StorageError::StorageDeleteError,
            )) && final(self).live() == old(self).live(),
            storage_named(old(self).live(), name@) is Some ==> (r matches Ok(p) && Some(p.storage)
                == storage_named(old(self).live(), name@) && p.savers@ == savers_of(
                final(self).live(),
            ) && p.purge@.map_values(|x: (String, bool)| (x.0@, x.1)) == purge_spec(
                p.storage,
                purge_level,
            ))
                && storage_named(final(self).live(), name@) is None && exists|i: int|
                0 <= i < old(self).live().len() && final(self).live() == old(self).live().remove(i),
    {
        match self.position(name) {
            None => Err(StorageError::StorageDeleteError),
            Some(i) => {
                let ghost before = self.storages@;
                let ghost old_unloaded = self.unloaded();
                let d = self.storages.remove(i);
                proof {
                    assert forall|a: int, b: int|
                        0 <= a < self.storages@.len() && 0 <= b < self.storages@.len() && a != b
                            implies self.storages@[a].name_spec() != self.storages@[b].name_spec() by {
                        let a0 = if a < i { a } else { a + 1 };
                        let b0 = if b < i { b } else { b + 1 };
                        assert(self.storages@[a] == before[a0]);
                        assert(self.storages@[b] == before[b0]);
                    }
                    assert forall|a: int| 0 <= a < self.storages@.len() implies #[trigger] self.storages@[a].wf() by {
                        let a0 = if a < i { a } else { a + 1 };
                        assert(self.storages@[a] == before[a0]);
                    }
                    assert forall|a: int| 0 <= a < self.storages@.len() implies self.storages@[a].name_spec() != name@ by {
                        let a0 = if a < i { a } else { a + 1 };
                        assert(self.storages@[a] == before[a0]);
                        assert(a0 != i);
                    }
                    lemma_storage_absent(self.storages@, name@);
                    assert(storages_wf(self.live()));
                    assert(self.unloaded() == old_unloaded);
                    assert(self.live() == before.remove(i as int));
                }
                let savers = self.storage_savers();
                let purge = purge_plan(&d, purge_level);
                Ok(DeletedStorage { storage: d, savers, purge })
            },
        }
    }

    /// The records of the live storages, in order.
    pub fn storage_savers(&self) -> (r: Vec<StorageSaver>)
        ensures
            r@ == savers_of(self.live()),
    {
        let mut out: Vec<StorageSaver> = Vec::new();
        let mut i: usize = 0;
        while i < self.storages.len()
            invariant
                i <= self.storages@.len(),
                out@ == savers_of(self.storages@.take(i as int)),
            decreases self.storages@.len() - i,
        {
            out.push(self.storages[i].storage_config());
            i = i + 1;
            assert(self.storages@.take(i as int) =~= self.storages@.take(i - 1).push(
                self.storages@[i - 1],
            ));
            assert(out@ =~= savers_of(self.storages@.take(i as int)));
        }
        assert(self.storages@.take(i as int) =~= self.storages@);
        out
    }

    /// The names of the live storages, in order.
    pub fn names(&self) -> (r: Vec<String>)
        ensures
            r@.map_values(|s: String| s@) == storage_names(self.live()),
    {
        let mut out: Vec<String> = Vec::new();
        let mut i: usize = 0;
        while i < self.storages.len()
            invariant
                i <= self.storages@.len(),
                out@.map_values(|s: String| s@) == storage_names(self.storages@.take(i as int)),
            decreases self.storages@.len() - i,
        {
            let ghost before = out@.map_values(|s: String| s@);
            out.push(self.storages[i].storage_config().id);
            assert(out@.map_values(|s: String| s@) =~= before.push(self.storages@[i as int].name_spec()));
            i = i + 1;
            assert(self.storages@.take(i as int) =~= self.storages@.take(i - 1).push(
                self.storages@[i - 1],
            ));
            assert(out@.map_values(|s: String| s@) =~= storage_names(
                self.storages@.take(i as int),
            ));
        }
        assert(self.storages@.take(i as int) =~= self.storages@);
        out
    }

    /// Adds a repository to the live storage named `storage`. The storage is
    /// taken out, changed and put back; no other storage is touched.
    pub fn create_repository(&mut self, storage: &str, config: RepositoryConfig) -> (r: Result<
        (),
        StorageError,
    >)
        requires
            old(self).wf(),
        ensures
            final(self).wf(),
            final(self).unloaded() == old(self).unloaded(),
            match storage_named(old(self).live(), storage@) {
                None => (r matches Err(StorageError::StorageMissing)) && final(self).live() == old(self).live(),
                Some(d) => exists|d2: DynamicStorage|
                    adds_repository(d, config, d2, r) && d2.wf() && final(self).live() == attached(
                        old(self).live(),
                        d2,
                    ),
            },
    {
        match self.position(storage) {
            None => Err(StorageError::StorageMissing),
            Some(i) => {
                let ghost old_live = self.live();
                let ghost old_unloaded = self.unloaded();
                let ghost cfg = config;
                let mut d = self.storages.remove(i);
                let ghost d0 = d;
                assert(d.wf());
                assert(self.unloaded() == old_unloaded);
                let r = d.add_repository(config);
                assert(adds_repository(d0, cfg, d, r));
                self.put_back(i, d, Ghost(old_live));
                r
            },
        }
    }

    /// Replaces a repository of the live storage named `storage` by `config`.
    /// The storage is taken out, changed and put back; no other storage is touched.
    pub fn update_repository(&mut self, storage: &str, config: RepositoryConfig) -> (r: Result<
        (),
        StorageError,
    >)
        requires
            old(self).wf(),
        ensures
            final(self).wf(),
            final(self).unloaded() == old(self).unloaded(),
            match storage_named(old(self).live(), storage@) {
                None => (r matches Err(StorageError::StorageMissing)) && final(self).live() == old(self).live(),
                Some(d) => exists|d2: DynamicStorage|
                    replaces_repository(d, config, d2, r) && d2.wf() && final(self).live() == attached(
                        old(self).live(),
                        d2,
                    ),
            },
    {
        match self.position(storage) {
            None => Err(StorageError::StorageMissing),
            Some(i) => {
                let ghost old_live = self.live();
                let ghost old_unloaded = self.unloaded();
                let ghost cfg = config;
                let mut d = self.storages.remove(i);
                let ghost d0 = d;
                assert(d.wf());
                assert(self.unloaded() == old_unloaded);
                let r = d.update_repository(config);
                assert(replaces_repository(d0, cfg, d, r));
                self.put_back(i, d, Ghost(old_live));
                r
            },
        }
    }

    /// Puts a storage back where it was taken out, with its name kept.
    fn put_back(&mut self, i: usize, d: DynamicStorage, Ghost(old_live): Ghost<Seq<DynamicStorage>>)
        requires
            storages_wf(old_live),
            i < old_live.len(),
            old(self).live() == old_live.remove(i as int),
            d.name_spec() == old_live[i as int].name_spec(),
            d.wf(),
            forall|k: int| 0 <= k < old(self).unloaded().len() ==> #[trigger] old(self).unloaded()[k].wf(),
        ensures
            final(self).wf(),
            final(self).unloaded() == old(self).unloaded(),
            final(self).live() == attached(old_live, d),
    {
        let ghost u = self.unloaded();
        self.storages.insert(i, d);
        proof {
            assert(self.unloaded() == u);
            assert forall|k: int| 0 <= k < self.unloaded().len() implies #[trigger] self.unloaded()[k].wf() by {
                assert(u[k].wf());
            }
            assert(self.storages@ =~= old_live.update(i as int, d));
            let k = choose|k: int| 0 <= k < old_live.len() && old_live[k].name_spec() == d.name_spec();
            assert(k == i);
            lemma_attach_isolated(old_live, d, d.name_spec());
            assert(self.live() == attached(old_live, d));
        }
    }

    /// A directory entry for each live storage.
    pub fn storages_as_file_list(&self) -> (r: Vec<StorageFile>)
        ensures
            r@.len() == self.live().len(),
            forall|i: int|
                0 <= i < r@.len() ==> {
                    let f = #[trigger] r@[i];
                    let d = self.live()[i];
                    f.name@ == d.name_spec() && f.full_path@ == d.name_spec() && f.mime@ == seq![
                        't',
                        'e',
                        'x',
                        't',
                        '/',
                        'd',
                        'i',
                        'r',
                        'e',
                        'c',
                        't',
                        'o',
                        'r',
                        'y',
                    ] && f.directory && f.file_size == 0 && f.modified is None && f.created
                        == d.saver_spec().created
                },
    {
        proof {
            reveal_strlit("text/directory");
        }
        let mut out: Vec<StorageFile> = Vec::new();
        let mut i: usize = 0;
        while i < self.storages.len()
            invariant
                i <= self.storages@.len(),
                out@.len() == i,
                forall|k: int|
                    0 <= k < i ==> {
                        let f = #[trigger] out@[k];
                        let d = self.storages@[k];
                        f.name@ == d.name_spec() && f.full_path@ == d.name_spec() && f.mime@
                            == "text/directory"@ && f.directory && f.file_size == 0
                            && f.modified is None && f.created == d.saver_spec().created
                    },
            decreases self.storages@.len() - i,
        {
            let saver = self.storages[i].storage_config();
            out.push(
                StorageFile {
                    name: saver.id.clone(),
                    full_path: saver.id.clone(),
                    mime: String::from_str("text/directory"),
                    directory: true,
                    file_size: 0,
                    modified: None,
                    created: saver.created,
                },
            );
            i = i + 1;
        }
        assert("text/directory"@ =~= seq![
            't',
            'e',
            'x',
            't',
            '/',
            'd',
            'i',
            'r',
            'e',
            'c',
            't',
            'o',
            'r',
            'y',
        ]);
        out
    }
}

/// Loading keeps a storage's name.
pub proof fn lemma_load_keeps_name(
    d: DynamicStorage,
    outcome: Result<Seq<Option<RepositoryConfig>>, Seq<char>>,
    after: DynamicStorage,
)
    requires
        d.loads_to(outcome, after),
    ensures
        after.name_spec() == d.name_spec(),
        d is BadStorage ==> after == d,
{
}

/// Failures stay where they happen: loading three storages of distinct
/// names one after another, where the second could not be reached, leaves
/// each found under its name, the first and the third with the repositories
/// that their listings built, the second as the bad storage with its error.
pub proof fn lemma_partial_load_isolation(
    s: Seq<DynamicStorage>,
    a: DynamicStorage,
    oa: Result<Seq<Option<RepositoryConfig>>, Seq<char>>,
    a2: DynamicStorage,
    b: DynamicStorage,
    ob: Result<Seq<Option<RepositoryConfig>>, Seq<char>>,
    b2: DynamicStorage,
    c: DynamicStorage,
    oc: Result<Seq<Option<RepositoryConfig>>, Seq<char>>,
    c2: DynamicStorage,
)
    requires
        storages_wf(s),
        a.name_spec() != b.name_spec(),
        b.name_spec() != c.name_spec(),
        a.name_spec() != c.name_spec(),
        b is BadStorage,
        a.loads_to(oa, a2),
        b.loads_to(ob, b2),
        c.loads_to(oc, c2),
        a2.wf(),
        b2.wf(),
        c2.wf(),
    ensures
        storage_named(attached(attached(attached(s, a2), b2), c2), a.name_spec()) == Some(a2),
        storage_named(attached(attached(attached(s, a2), b2), c2), b.name_spec()) == Some(b),
        storage_named(attached(attached(attached(s, a2), b2), c2), c.name_spec()) == Some(c2),
{
    lemma_load_keeps_name(a, oa, a2);
    lemma_load_keeps_name(b, ob, b2);
    lemma_load_keeps_name(c, oc, c2);
    let t1 = attached(s, a2);
    let t2 = attached(t1, b2);
    lemma_attach_isolated(s, a2, a.name_spec());
    lemma_attach_isolated(t1, b2, a.name_spec());
    lemma_attach_isolated(t1, b2, b.name_spec());
    lemma_attach_isolated(t2, c2, a.name_spec());
    lemma_attach_isolated(t2, c2, b.name_spec());
    lemma_attach_isolated(t2, c2, c.name_spec());
}

/// Of two creations of one name, one wins: once a storage is published,
/// the registry finds it under its name, so that a second storage of that
/// name is refused, and the records to persist hold that name exactly once.
pub proof fn lemma_single_creation(s: Seq<DynamicStorage>, a: DynamicStorage, b: DynamicStorage)
    requires
        storages_wf(s),
        a.wf(),
        storage_named(s, a.name_spec()) is None,
        b.name_spec() == a.name_spec(),
    ensures
        storages_wf(s.push(a)),
        storage_named(s.push(a), b.name_spec()) == Some(a),
        exists|i: int|
            0 <= i < s.len() + 1 && savers_of(s.push(a))[i].id@ == a.name_spec() && forall|j: int|
                0 <= j < s.len() + 1 && #[trigger] savers_of(s.push(a))[j].id@ == a.name_spec()
                    ==> j == i,
{
    lemma_storage_lookup(s, a.name_spec());
    lemma_attach_isolated(s, a, a.name_spec());
    assert(attached(s, a) == s.push(a));
    let t = s.push(a);
    assert(savers_of(t)[s.len() as int].id@ == a.name_spec());
    assert forall|j: int|
        0 <= j < s.len() + 1 && #[trigger] savers_of(t)[j].id@ == a.name_spec() implies j
        == s.len() as int by {
        if j < s.len() {
            assert(t[j].name_spec() == a.name_spec());
        }
    }
}

/// The repositories that deleting a storage removes at `level`, each with
/// whether its data goes too: all of them with their data, all of them
/// without, or none.
pub open spec fn purge_spec(d: DynamicStorage, level: PurgeLevel) -> Seq<(Seq<char>, bool)> {
    match level {
        PurgeLevel::All => repo_names(d.repos()).map_values(|n: Seq<char>| (n, true)),
        PurgeLevel::Configs => repo_names(d.repos()).map_values(|n: Seq<char>| (n, false)),
        PurgeLevel::RemoveFromList => Seq::empty(),
    }
}

/// The repositories that deleting a storage removes at `level`, each with
/// whether its data goes too.
pub fn purge_plan(d: &DynamicStorage, level: PurgeLevel) -> (r: Vec<(String, bool)>)
    ensures
        r@.map_values(|p: (String, bool)| (p.0@, p.1)) == purge_spec(*d, level),
{
    let mut out: Vec<(String, bool)> = Vec::new();
    if level == PurgeLevel::RemoveFromList {
        assert(out@.map_values(|p: (String, bool)| (p.0@, p.1)) =~= purge_spec(*d, level));
        return out;
    }
    let purge = level == PurgeLevel::All;
    let names = d.repository_names();
    let mut i: usize = 0;
    while i < names.len()
        invariant
            i <= names@.len(),
            out@.map_values(|p: (String, bool)| (p.0@, p.1)) == names@.take(i as int).map_values(
                |s: String| (s@, purge),
            ),
        decreases names@.len() - i,
    {
        let ghost before = out@.map_values(|p: (String, bool)| (p.0@, p.1));
        out.push((names[i].clone(), purge));
        assert(out@.map_values(|p: (String, bool)| (p.0@, p.1)) =~= before.push((names@[i as int]@, purge)));
        i = i + 1;
        assert(names@.take(i as int) =~= names@.take(i - 1).push(names@[i - 1]));
        assert(out@.map_values(|p: (String, bool)| (p.0@, p.1)) =~= names@.take(i as int).map_values(
            |s: String| (s@, purge),
        ));
    }
    assert(names@.take(i as int) =~= names@);
    assert(out@.map_values(|p: (String, bool)| (p.0@, p.1)) =~= purge_spec(*d, level));
    out
}

} // verus!
