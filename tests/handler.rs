use nitro_repo::handler::{DynamicRepositoryHandler, NPMHandler, RepositoryError};
use nitro_repo::npm::{NpmGetAction, NpmPutStep, PublishAttachment, PublishRequest, PublishVersion};
use nitro_repo::permissions::{RepositoryPermission, UserModel, UserPermissions};
use nitro_repo::repository::{Policy, RepositoryConfig, RepositoryType, Visibility};
use nitro_repo::settings::{default_setting, default_string, SettingDefinition, SettingError};

fn config(t: RepositoryType, visibility: Visibility) -> RepositoryConfig {
    RepositoryConfig {
        name: "r".to_string(),
        storage: "s".to_string(),
        repository_type: t,
        visibility,
        policy: Policy::Release,
        active: true,
    }
}

fn user(deploy: &[&str]) -> Option<UserModel> {
    Some(UserModel {
        id: 1,
        username: "u".to_string(),
        permissions: UserPermissions {
            disabled: false,
            admin: false,
            user_manager: false,
            repository_manager: false,
            deployer: RepositoryPermission {
                permissions: deploy.iter().map(|s| s.to_string()).collect(),
            },
            viewer: RepositoryPermission { permissions: vec!["none/none".to_string()] },
        },
    })
}

#[test]
fn handler_variant_follows_type() {
    let h = DynamicRepositoryHandler::new(config(RepositoryType::NPM, Visibility::Public), "s".to_string());
    assert!(matches!(h, DynamicRepositoryHandler::NPM(_)));
    assert_eq!(h.get_repository().name, "r");
    let h = DynamicRepositoryHandler::new(config(RepositoryType::CI, Visibility::Public), "s".to_string());
    assert!(matches!(h, DynamicRepositoryHandler::CI(_)));
    let h = DynamicRepositoryHandler::new(config(RepositoryType::Maven, Visibility::Public), "s".to_string());
    assert!(matches!(h, DynamicRepositoryHandler::Maven(_)));
}

#[test]
fn npm_get_needs_read() {
    let h = NPMHandler::create(config(RepositoryType::NPM, Visibility::Private), "s".to_string());
    assert!(matches!(h.handle_get(&None, true, "foo"), Err(RepositoryError::Unauthorized(_))));
    assert!(matches!(h.handle_get(&user(&["x/y"]), true, "foo"), Err(RepositoryError::Unauthorized(_))));
    assert!(matches!(h.handle_get(&user(&["s/r"]), true, "foo"), Ok(NpmGetAction::Metadata)));
}

#[test]
fn npm_get_tarball_location() {
    let h = NPMHandler::create(config(RepositoryType::NPM, Visibility::Public), "s".to_string());
    match h.handle_get(&user(&[]), true, "foo/-/foo-1.2.3.tgz") {
        Ok(NpmGetAction::Tarball(t)) => assert_eq!(t.storage_path(), "foo/1.2.3/foo-1.2.3.tgz"),
        other => panic!("unexpected {:?}", other),
    }
}

#[test]
fn npm_put_login_and_publish() {
    let h = NPMHandler::create(config(RepositoryType::NPM, Visibility::Public), "s".to_string());
    match h.handle_put(&None, "-/user/org.couchdb.user:bob", None, None) {
        Ok(NpmPutStep::VerifyUser(n)) => assert_eq!(n, "bob"),
        other => panic!("unexpected {:?}", other),
    }
    assert!(matches!(
        h.handle_put(&None, "foo", Some("publish"), None),
        Err(RepositoryError::Unauthorized(_))
    ));
    let req = PublishRequest {
        name: "foo".to_string(),
        versions: vec![PublishVersion { version: "1.0.0".to_string(), metadata: vec![b'{', b'}'] }],
        attachments: vec![PublishAttachment {
            key: "foo-1.0.0.tgz".to_string(),
            data: "aGVsbG8=".to_string(),
        }],
    };
    match h.handle_put(&user(&["s/*"]), "foo", Some("publish"), Some(&req)) {
        Ok(NpmPutStep::Publish(plan)) => {
            assert!(plan.failed.is_none());
            assert_eq!(plan.writes[0].path, "foo/1.0.0/foo-1.0.0.tgz");
            assert_eq!(plan.writes[0].data, b"hello".to_vec());
        }
        other => panic!("unexpected {:?}", other),
    }
    assert!(matches!(
        h.handle_put(&user(&["s/*"]), "foo", Some("publish"), None),
        Ok(NpmPutStep::InvalidPublishBody)
    ));
    match h.handle_put(&user(&["s/*"]), "foo", Some("dist-tag"), None) {
        Ok(NpmPutStep::BadRequest(m)) => assert_eq!(m, "Bad Request dist-tag"),
        other => panic!("unexpected {:?}", other),
    }
    match h.handle_put(&user(&["s/*"]), "foo", None, None) {
        Ok(NpmPutStep::BadRequest(m)) => assert_eq!(m, "Missing NPM-Command"),
        other => panic!("unexpected {:?}", other),
    }
}

#[test]
fn settings_defaults() {
    assert_eq!(default_string(), "");
    let known = vec![
        SettingDefinition { key: "name".to_string(), default: Some("Nitro".to_string()), public: Some(true) },
        SettingDefinition { key: "empty".to_string(), default: None, public: None },
    ];
    let s = default_setting(&known, "name", 9).unwrap();
    assert_eq!(s.id, 0);
    assert_eq!(s.value, "Nitro");
    assert_eq!(s.updated, 9);
    assert_eq!(default_setting(&known, "empty", 9).unwrap().value, "");
    assert!(matches!(default_setting(&known, "other", 9), Err(SettingError::UnknownSetting)));
}
