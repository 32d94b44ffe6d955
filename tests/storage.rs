use nitro_repo::repository::{Policy, RepositoryConfig, RepositoryType, Visibility};
use nitro_repo::storage::{
    purge_plan, DynamicStorage, MultiStorageController, PurgeLevel, StorageError, StorageSaver,
};

fn saver(id: &str) -> StorageSaver {
    StorageSaver { id: id.to_string(), location: format!("/data/{}", id), created: 42 }
}

fn local(id: &str) -> DynamicStorage {
    DynamicStorage::LocalStorage { saver: saver(id), repositories: Vec::new() }
}

fn repo(name: &str) -> RepositoryConfig {
    RepositoryConfig {
        name: name.to_string(),
        storage: "elsewhere".to_string(),
        repository_type: RepositoryType::NPM,
        visibility: Visibility::Public,
        policy: Policy::Mixed,
        active: true,
    }
}

#[test]
fn create_storage_race() {
    let mut c = MultiStorageController::init(Vec::new());
    let savers = c.check_create(&saver("main")).unwrap();
    assert_eq!(savers.len(), 1);
    assert!(c.create_storage(local("main")).is_ok());
    assert!(matches!(c.check_create(&saver("main")), Err(StorageError::StorageAlreadyExists)));
    assert!(matches!(c.create_storage(local("main")), Err(StorageError::StorageAlreadyExists)));
    let ids: Vec<String> = c.storage_savers().into_iter().map(|s| s.id).collect();
    assert_eq!(ids, vec!["main".to_string()]);
}

#[test]
fn partial_load_isolation() {
    let bad = DynamicStorage::BadStorage { saver: saver("second"), error: "unreachable".to_string() };
    let mut c = MultiStorageController::init(vec![local("first"), bad, local("third")]);
    let waiting = c.take_unloaded();
    assert_eq!(waiting.len(), 3);
    let mut outcomes = vec![
        Ok(vec![Some(repo("a")), None, Some(repo("b"))]),
        Err("cannot list".to_string()),
        Ok(vec![Some(repo("c"))]),
    ]
    .into_iter();
    for storage in waiting {
        c.load_storage(storage, outcomes.next().unwrap());
    }
    assert_eq!(c.names(), vec!["first".to_string(), "second".to_string(), "third".to_string()]);
    let first = c.get_storage_by_name("first").unwrap();
    assert_eq!(first.repository_names(), vec!["a".to_string(), "b".to_string()]);
    assert_eq!(first.get_repository("a").unwrap().storage, "first");
    match c.get_storage_by_name("second").unwrap() {
        DynamicStorage::BadStorage { error, .. } => assert_eq!(error, "unreachable"),
        other => panic!("unexpected {:?}", other),
    }
    let third = c.get_storage_by_name("third").unwrap();
    assert_eq!(third.repository_names(), vec!["c".to_string()]);
}

#[test]
fn failed_listing_leaves_storage_empty() {
    let mut c = MultiStorageController::init(vec![local("s")]);
    for storage in c.take_unloaded() {
        c.load_storage(storage, Err("io".to_string()));
    }
    assert!(c.does_storage_exist("s"));
    assert!(c.get_storage_by_name("s").unwrap().repository_names().is_empty());
}

#[test]
fn duplicate_repository_in_listing_is_skipped() {
    let mut c = MultiStorageController::init(vec![local("s")]);
    for storage in c.take_unloaded() {
        c.load_storage(storage, Ok(vec![Some(repo("a")), Some(repo("a"))]));
    }
    assert_eq!(c.get_storage_by_name("s").unwrap().repository_names(), vec!["a".to_string()]);
}

#[test]
fn delete_storage_and_purge() {
    let mut c = MultiStorageController::init(Vec::new());
    c.create_storage(local("keep")).unwrap();
    c.create_storage(local("drop")).unwrap();
    c.create_repository("drop", repo("r1")).unwrap();
    c.create_repository("drop", repo("r2")).unwrap();
    let deleted = c.delete_storage("drop", PurgeLevel::Configs).unwrap();
    assert_eq!(deleted.savers.len(), 1);
    assert_eq!(deleted.savers[0].id, "keep");
    assert_eq!(deleted.purge, vec![("r1".to_string(), false), ("r2".to_string(), false)]);
    let removed = deleted.storage;
    assert!(!c.does_storage_exist("drop"));
    assert!(matches!(
        c.delete_storage("drop", PurgeLevel::All),
        Err(StorageError::StorageDeleteError)
    ));
    assert_eq!(
        purge_plan(&removed, PurgeLevel::All),
        vec![("r1".to_string(), true), ("r2".to_string(), true)]
    );
    assert_eq!(
        purge_plan(&removed, PurgeLevel::Configs),
        vec![("r1".to_string(), false), ("r2".to_string(), false)]
    );
    assert!(purge_plan(&removed, PurgeLevel::RemoveFromList).is_empty());
}

#[test]
fn repository_create_and_update() {
    let mut c = MultiStorageController::init(Vec::new());
    c.create_storage(local("s")).unwrap();
    assert!(matches!(c.create_repository("nope", repo("r")), Err(StorageError::StorageMissing)));
    c.create_repository("s", repo("r")).unwrap();
    assert!(matches!(
        c.create_repository("s", repo("r")),
        Err(StorageError::RepositoryAlreadyExists)
    ));
    let mut changed = repo("r");
    changed.visibility = Visibility::Private;
    c.update_repository("s", changed).unwrap();
    let r = c.get_storage_by_name("s").unwrap().get_repository("r").unwrap();
    assert_eq!(r.visibility, Visibility::Private);
    assert_eq!(r.storage, "s");
    assert!(matches!(c.update_repository("s", repo("zz")), Err(StorageError::RepositoryMissing)));
}

#[test]
fn bad_storage_refuses_repositories() {
    let mut bad = DynamicStorage::BadStorage { saver: saver("b"), error: "e".to_string() };
    assert!(matches!(bad.add_repository(repo("r")), Err(StorageError::BadStorage(_))));
}

#[test]
fn storages_listed_as_directories() {
    let mut c = MultiStorageController::init(Vec::new());
    c.create_storage(local("one")).unwrap();
    let files = c.storages_as_file_list();
    assert_eq!(files.len(), 1);
    assert_eq!(files[0].name, "one");
    assert_eq!(files[0].full_path, "one");
    assert_eq!(files[0].mime, "text/directory");
    assert!(files[0].directory);
    assert_eq!(files[0].created, 42);
}

#[test]
fn recover_storage_loads_repositories() {
    let mut c = MultiStorageController::init(Vec::new());
    c.recover_storage(local("old"), Ok(vec![Some(repo("x")), None])).unwrap();
    let d = c.get_storage_by_name("old").unwrap();
    assert_eq!(d.repository_names(), vec!["x".to_string()]);
    assert!(matches!(
        c.recover_storage(local("old"), Ok(Vec::new())),
        Err(StorageError::StorageAlreadyExists)
    ));
}
