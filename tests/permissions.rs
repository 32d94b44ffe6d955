use nitro_repo::permissions::{
    can, can_deploy, can_read, filter_allows, filter_from_fields, CanIDo, MissingPermission,
    PermissionError, RepositoryPermission, RepositoryPermissionValue, UserModel, UserPermissions,
};
use nitro_repo::repository::{Policy, RepositoryConfig, RepositoryType, Visibility};

fn repo(storage: &str, name: &str, policy: Policy, visibility: Visibility) -> RepositoryConfig {
    RepositoryConfig {
        name: name.to_string(),
        storage: storage.to_string(),
        repository_type: RepositoryType::Maven,
        visibility,
        policy,
        active: true,
    }
}

fn perms(list: &[&str]) -> RepositoryPermission {
    RepositoryPermission { permissions: list.iter().map(|s| s.to_string()).collect() }
}

fn user(deployer: &[&str], viewer: &[&str]) -> UserPermissions {
    UserPermissions {
        disabled: false,
        admin: false,
        user_manager: false,
        repository_manager: false,
        deployer: perms(deployer),
        viewer: perms(viewer),
    }
}

#[test]
fn storage_wildcard_and_policy_filter() {
    let p = perms(&["storageA/*", "storageB/{\"policy\":\"release\"}"]);
    for policy in [Policy::Release, Policy::Snapshot, Policy::Mixed] {
        let r = repo("storageA", "any", policy, Visibility::Private);
        assert!(matches!(can(&r, &p), Ok(true)));
    }
    let release = repo("storageB", "libs", Policy::Release, Visibility::Private);
    assert!(matches!(can(&release, &p), Ok(true)));
    let snapshot = repo("storageB", "libs", Policy::Snapshot, Visibility::Private);
    assert!(matches!(can(&snapshot, &p), Ok(false)));
}

#[test]
fn empty_pattern_list_allows_everything() {
    let p = perms(&[]);
    for (s, n) in [("a", "b"), ("storageX", "repo"), ("", "")] {
        let r = repo(s, n, Policy::Snapshot, Visibility::Private);
        assert!(matches!(can(&r, &p), Ok(true)));
    }
}

#[test]
fn no_matching_pattern_denies() {
    let p = perms(&["other/*", "storageA/libs"]);
    let r = repo("storageA", "apps", Policy::Release, Visibility::Private);
    assert!(matches!(can(&r, &p), Ok(false)));
    let named = repo("storageA", "libs", Policy::Release, Visibility::Private);
    assert!(matches!(can(&named, &p), Ok(true)));
}

#[test]
fn storage_part_ignores_ascii_case() {
    let p = perms(&["STORAGEA/*"]);
    let r = repo("storageA", "x", Policy::Release, Visibility::Private);
    assert!(matches!(can(&r, &p), Ok(true)));
}

#[test]
fn repository_name_is_case_sensitive() {
    let p = perms(&["storageA/Libs"]);
    let r = repo("storageA", "libs", Policy::Release, Visibility::Private);
    assert!(matches!(can(&r, &p), Ok(false)));
}

#[test]
fn non_matching_filter_is_skipped() {
    let p = perms(&["s/{\"policy\":\"snapshot\"}", "*/*"]);
    let r = repo("s", "x", Policy::Release, Visibility::Private);
    assert!(matches!(can(&r, &p), Ok(true)));
    let only = perms(&["s/{\"policy\":\"snapshot\"}"]);
    assert!(matches!(can(&r, &only), Ok(false)));
}

#[test]
fn first_matching_pattern_wins() {
    let p = perms(&["s/*", "s/{not json}"]);
    let r = repo("s", "x", Policy::Release, Visibility::Private);
    assert!(matches!(can(&r, &p), Ok(true)));
}

#[test]
fn type_filter() {
    let p = perms(&["s/{\"type\":\"maven\"}"]);
    let r = repo("s", "x", Policy::Release, Visibility::Private);
    assert!(matches!(can(&r, &p), Ok(true)));
    let mut npm = repo("s", "x", Policy::Release, Visibility::Private);
    npm.repository_type = RepositoryType::NPM;
    assert!(matches!(can(&npm, &p), Ok(false)));
}

#[test]
fn missing_repository_part_is_an_error() {
    let p = perms(&["storageA"]);
    let r = repo("storageA", "x", Policy::Release, Visibility::Private);
    assert!(matches!(can(&r, &p), Err(PermissionError::RepositoryClassifier)));
}

#[test]
fn malformed_filter_is_an_error() {
    let p = perms(&["s/{not json}"]);
    let r = repo("s", "x", Policy::Release, Visibility::Private);
    assert!(matches!(can(&r, &p), Err(PermissionError::RepositoryClassifierParseError(_))));
}

#[test]
fn unknown_policy_is_an_error() {
    let p = perms(&["s/{\"policy\":\"nightly\"}"]);
    let r = repo("s", "x", Policy::Release, Visibility::Private);
    match can(&r, &p) {
        Err(PermissionError::ParseError(name)) => assert_eq!(name, "nightly"),
        other => panic!("unexpected {:?}", other),
    }
}

#[test]
fn filter_fields_are_read() {
    let fields = vec![
        ("policy".to_string(), Some("mixed".to_string())),
        ("type".to_string(), Some("npm".to_string())),
    ];
    let v = filter_from_fields(&fields).unwrap();
    assert_eq!(v.policy, Some(Policy::Mixed));
    assert_eq!(v.repo_type, Some("npm".to_string()));
    let value = RepositoryPermissionValue { policy: Some(Policy::Mixed), repo_type: None };
    let r = repo("s", "x", Policy::Mixed, Visibility::Private);
    assert!(filter_allows(&value, &r));
    let other = repo("s", "x", Policy::Release, Visibility::Private);
    assert!(!filter_allows(&value, &other));
}

#[test]
fn public_and_hidden_are_readable() {
    let u = user(&["none/none"], &["none/none"]);
    let public = repo("s", "x", Policy::Release, Visibility::Public);
    let hidden = repo("s", "x", Policy::Release, Visibility::Hidden);
    assert!(matches!(can_read(&u, &public), Ok(true)));
    assert!(matches!(can_read(&u, &hidden), Ok(true)));
}

#[test]
fn private_needs_viewer_or_deployer() {
    let private = repo("s", "x", Policy::Release, Visibility::Private);
    let nobody = user(&["none/none"], &["none/none"]);
    assert!(matches!(can_read(&nobody, &private), Ok(false)));
    let viewer = user(&["none/none"], &["s/x"]);
    assert!(matches!(can_read(&viewer, &private), Ok(true)));
    let deployer = user(&["s/x"], &["none/none"]);
    assert!(matches!(can_read(&deployer, &private), Ok(true)));
}

#[test]
fn disabled_and_admin() {
    let r = repo("s", "x", Policy::Release, Visibility::Public);
    let mut u = user(&["*/*"], &["*/*"]);
    u.disabled = true;
    assert!(matches!(can_read(&u, &r), Ok(false)));
    assert!(matches!(can_deploy(&u, &r), Ok(false)));
    let mut a = user(&["none/none"], &["none/none"]);
    a.admin = true;
    assert!(matches!(can_deploy(&a, &r), Ok(true)));
}

#[test]
fn empty_lists_allow_everything() {
    let r = repo("s", "x", Policy::Release, Visibility::Private);
    let u = user(&[], &[]);
    assert!(matches!(can_deploy(&u, &r), Ok(true)));
    assert!(matches!(can_read(&u, &r), Ok(true)));
    let viewer_only = user(&["none/none"], &[]);
    assert!(matches!(can_read(&viewer_only, &r), Ok(true)));
    assert!(matches!(can_deploy(&viewer_only, &r), Ok(false)));
}

#[test]
fn disabled_user_cannot_read_public() {
    let mut p = user(&[], &[]);
    p.disabled = true;
    let u = UserModel { id: 2, username: "d".to_string(), permissions: p };
    let public = repo("s", "x", Policy::Release, Visibility::Public);
    assert!(matches!(u.can_read_from(&public), Ok(Some(_))));
}

#[test]
fn default_permissions_allow_all() {
    let d = RepositoryPermission::default();
    assert_eq!(d.permissions, vec!["*".to_string()]);
    let u = UserPermissions::default();
    assert!(!u.admin && !u.disabled);
    let r = repo("s", "x", Policy::Release, Visibility::Private);
    // "*" has no repository part
    assert!(matches!(can_deploy(&u, &r), Err(PermissionError::RepositoryClassifier)));
}

#[test]
fn missing_permission_message() {
    let m = MissingPermission::named("admin");
    assert_eq!(m.0, "Missing Permission `admin`");
}

#[test]
fn can_i_do_checks() {
    let mut p = user(&["s/x"], &["none/none"]);
    p.repository_manager = true;
    let u = UserModel { id: 1, username: "bob".to_string(), permissions: p };
    assert!(u.can_i_edit_repos().is_ok());
    assert!(u.can_i_edit_users().is_err());
    assert!(u.can_i_admin().is_err());
    let r = repo("s", "x", Policy::Release, Visibility::Private);
    assert!(matches!(u.can_deploy_to(&r), Ok(None)));
    assert!(matches!(u.can_read_from(&r), Ok(None)));
    let other = repo("s", "y", Policy::Release, Visibility::Private);
    assert!(matches!(u.can_deploy_to(&other), Ok(Some(_))));
    let nobody: Option<UserModel> = None;
    assert!(nobody.can_i_admin().is_err());
    assert!(matches!(nobody.can_read_from(&r), Ok(Some(_))));
    let somebody = Some(u);
    assert!(somebody.can_i_edit_repos().is_ok());
}
