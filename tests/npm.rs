use nitro_repo::npm::{
    package_metadata, user_verification_answer, NpmLoginAnswer, login_created_message, metadata_version_of, npm_get_action, npm_put_action,
    package_versions, parse_tarball_path, plan_publish, NpmGetAction, NpmPutAction,
    PublishAttachment, PublishRequest, PublishVersion,
};

#[test]
fn tarball_path_parsing() {
    let t = parse_tarball_path("foo/-/foo-1.2.3.tgz").unwrap();
    assert_eq!(t.package, "foo");
    assert_eq!(t.version, "1.2.3");
    assert_eq!(t.file, "foo-1.2.3.tgz");
    assert_eq!(t.storage_path(), "foo/1.2.3/foo-1.2.3.tgz");
}

#[test]
fn scoped_tarball_path() {
    let t = parse_tarball_path("@scope/pkg/-/pkg-0.1.0.tgz").unwrap();
    assert_eq!(t.package, "@scope/pkg");
    assert_eq!(t.file, "pkg-0.1.0.tgz");
    assert_eq!(t.version, "pkg-0.1.0");
}

#[test]
fn tarball_path_without_separator() {
    assert!(parse_tarball_path("foo/foo-1.2.3.tgz").is_none());
}

#[test]
fn get_actions() {
    assert!(matches!(npm_get_action(false, "foo/-/foo-1.0.0.tgz"), NpmGetAction::File));
    assert!(matches!(npm_get_action(true, "foo"), NpmGetAction::Metadata));
    assert!(matches!(npm_get_action(true, "foo.tgz"), NpmGetAction::BadTarballPath));
    match npm_get_action(true, "foo/-/foo-1.0.0.tgz") {
        NpmGetAction::Tarball(t) => assert_eq!(t.version, "1.0.0"),
        other => panic!("unexpected {:?}", other),
    }
}

#[test]
fn user_verification_paths() {
    assert_eq!(
        nitro_repo::npm::user_verification_name("-/user/org.couchdb.user:alice"),
        Some("alice".to_string())
    );
    assert_eq!(nitro_repo::npm::user_verification_name("-/user/org.couchdb.user:"), None);
    assert_eq!(nitro_repo::npm::user_verification_name("foo/-/foo-1.0.0.tgz"), None);
    assert_eq!(login_created_message("alice"), "user 'alice' created");
}

#[test]
fn put_commands() {
    assert!(matches!(npm_put_action(Some("publish")), NpmPutAction::Publish));
    assert!(matches!(npm_put_action(None), NpmPutAction::MissingCommand));
    match npm_put_action(Some("unpublish")) {
        NpmPutAction::BadCommand(m) => assert_eq!(m, "Bad Request unpublish"),
        other => panic!("unexpected {:?}", other),
    }
}

fn publish_request(data: &str) -> PublishRequest {
    PublishRequest {
        name: "foo".to_string(),
        versions: vec![PublishVersion {
            version: "1.0.0".to_string(),
            metadata: b"{\"version\":\"1.0.0\"}".to_vec(),
        }],
        attachments: vec![PublishAttachment {
            key: "foo-1.0.0.tgz".to_string(),
            data: data.to_string(),
        }],
    }
}

#[test]
fn publish_round_trip() {
    let plan = plan_publish(&publish_request("aGVsbG8="));
    assert!(plan.failed.is_none());
    assert_eq!(plan.writes.len(), 2);
    assert_eq!(plan.writes[0].path, "foo/1.0.0/foo-1.0.0.tgz");
    assert_eq!(plan.writes[0].data, b"hello".to_vec());
    assert_eq!(plan.writes[1].path, "foo/1.0.0/package.json");
    assert_eq!(plan.writes[1].data, b"{\"version\":\"1.0.0\"}".to_vec());
    // what a later GET finds
    let stored: Vec<(String, Vec<u8>)> =
        plan.writes.iter().map(|w| (w.path.clone(), w.data.clone())).collect();
    let t = parse_tarball_path("foo/-/foo-1.0.0.tgz").unwrap();
    let found = stored.iter().find(|(p, _)| *p == t.storage_path()).unwrap();
    assert_eq!(found.1, b"hello".to_vec());
    let paths: Vec<String> = stored.iter().map(|(p, _)| p.clone()).collect();
    assert_eq!(package_versions(&paths, "foo"), vec!["1.0.0".to_string()]);
}

#[test]
fn publish_with_bad_attachment() {
    let plan = plan_publish(&publish_request("not base64!"));
    assert!(plan.writes.is_empty());
    assert_eq!(plan.failed, Some("foo-1.0.0.tgz".to_string()));
}

#[test]
fn publish_several_versions() {
    let mut req = publish_request("aGVsbG8=");
    req.versions.push(PublishVersion { version: "2.0.0".to_string(), metadata: vec![1] });
    let plan = plan_publish(&req);
    let paths: Vec<&str> = plan.writes.iter().map(|w| w.path.as_str()).collect();
    assert_eq!(
        paths,
        vec![
            "foo/1.0.0/foo-1.0.0.tgz",
            "foo/1.0.0/package.json",
            "foo/2.0.0/foo-1.0.0.tgz",
            "foo/2.0.0/package.json"
        ]
    );
}

#[test]
fn metadata_versions() {
    assert_eq!(metadata_version_of("foo/1.0.0/package.json", "foo"), Some("1.0.0".to_string()));
    assert_eq!(metadata_version_of("foo/a/b/package.json", "foo"), None);
    assert_eq!(metadata_version_of("bar/1.0.0/package.json", "foo"), None);
    assert_eq!(metadata_version_of("foo//package.json", "foo"), None);
    let paths = vec![
        "foo/1.0.0/package.json".to_string(),
        "foo/1.0.0/foo-1.0.0.tgz".to_string(),
        "foo/2.0.0/package.json".to_string(),
    ];
    assert_eq!(package_versions(&paths, "foo"), vec!["1.0.0".to_string(), "2.0.0".to_string()]);
}

#[test]
fn verification_answers() {
    match user_verification_answer("bob", true) {
        NpmLoginAnswer::Created(m) => assert_eq!(m, "user 'bob' created"),
        other => panic!("unexpected {:?}", other),
    }
    assert!(matches!(user_verification_answer("bob", false), NpmLoginAnswer::NotAuthorized));
}

#[test]
fn metadata_for_unknown_package() {
    let paths = vec!["foo/1.0.0/package.json".to_string()];
    assert_eq!(package_metadata(&paths, "bar"), None);
    assert_eq!(package_metadata(&paths, "foo"), Some(vec!["1.0.0".to_string()]));
}
