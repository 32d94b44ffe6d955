//! The NPM protocol: where a tarball request points, which PUT requests are
//! logins, and what a publish writes.

use vstd::prelude::*;
use vstd::string::*;

use crate::external::{
    base64_decoded, couch_user_path_matches, couch_user_prefix, decode_base64, names_couch_user,
};
use crate::text::{
    chars_of, ends_with, find_seq, find_seq_from, has_at, join2, starts_with, string_of_range,
};

verus! {

/// Where a tarball request points: `package/-/package-version.tgz`.
#[derive(Debug)]
pub struct TarballPath {
    pub package: String,
    pub version: String,
    pub file: String,
}

/// What a GET request to an NPM repository asks for.
#[derive(Debug)]
pub enum NpmGetAction {
    /// A tarball, stored at `package/version/file`.
    Tarball(TarballPath),
    /// A tarball path without the `/-/` separator.
    BadTarballPath,
    /// The package's metadata.
    Metadata,
    /// A stored file, by the request path.
    File,
}

/// What a PUT request to an NPM repository asks for, once it is no login.
#[derive(Debug)]
pub enum NpmPutAction {
    Publish,
    /// An unsupported command; the message names it.
    BadCommand(String),
    MissingCommand,
}

pub open spec fn separator() -> Seq<char> {
    seq!['/', '-', '/']
}

pub open spec fn tgz() -> Seq<char> {
    seq!['.', 't', 'g', 'z']
}

pub open spec fn contains(s: Seq<char>, p: Seq<char>) -> bool {
    find_seq_from(s, p, 0) < s.len()
}

/// The package, version and file that a tarball path names: the package is
/// what precedes the first `/-/`, the file what follows it up to the next
/// `/-/`, and the version is the file without the leading `package-` and the
/// trailing `.tgz`.
pub open spec fn tarball_of(path: Seq<char>) -> Option<(Seq<char>, Seq<char>, Seq<char>)> {
    let k = find_seq_from(path, separator(), 0);
    if k >= path.len() {
        None
    } else {
        let package = path.take(k);
        let file = path.subrange(k + 3, find_seq_from(path, separator(), k + 3));
        let prefix = package + seq!['-'];
        let v1 = if starts_with(file, prefix) {
            file.skip(prefix.len() as int)
        } else {
            file
        };
        let version = if ends_with(v1, tgz()) {
            v1.take(v1.len() - 4)
        } else {
            v1
        };
        Some((package, version, file))
    }
}

/// Where a file of a package version is stored: `package/version/file`.
pub open spec fn artifact_path(package: Seq<char>, version: Seq<char>, file: Seq<char>) -> Seq<
    char,
> {
    package + seq!['/'] + version + seq!['/'] + file
}

proof fn lemma_find_seq_found(s: Seq<char>, p: Seq<char>, i: int)
    requires
        0 <= i,
        find_seq_from(s, p, i) < s.len(),
    ensures
        i <= find_seq_from(s, p, i),
        find_seq_from(s, p, i) + p.len() <= s.len(),
        s.subrange(find_seq_from(s, p, i), find_seq_from(s, p, i) + p.len()) == p,
    decreases s.len() + 1 - i,
{
    if i + p.len() <= s.len() && s.subrange(i, i + p.len()) != p {
        lemma_find_seq_found(s, p, i + 1);
    }
}

proof fn lemma_find_seq_complete(s: Seq<char>, p: Seq<char>, j: int, i: int)
    requires
        0 <= j <= i,
        i + p.len() <= s.len(),
        s.subrange(i, i + p.len()) == p,
    ensures
        find_seq_from(s, p, j) <= i,
    decreases i - j,
{
    if j < i && s.subrange(j, j + p.len()) != p {
        lemma_find_seq_complete(s, p, j + 1, i);
    }
}

/// The package, version and file that a tarball path names.
pub fn parse_tarball_path(path: &str) -> (r: Option<TarballPath>)
    ensures
        match tarball_of(path@) {
            Some(t) => r matches Some(x) && x.package@ == t.0 && x.version@ == t.1 && x.file@
                == t.2,
            None => r is None,
        },
{
    let cs = chars_of(path);
    let sep = chars_of("/-/");
    proof {
        reveal_strlit("/-/");
        assert(sep@ =~= separator());
    }
    let k = find_seq(&cs, &sep, 0);
    if k >= cs.len() {
        return None;
    }
    proof {
        lemma_find_seq_found(cs@, sep@, 0);
    }
    let m = find_seq(&cs, &sep, k + 3);
    let package = string_of_range(path, 0, k);
    let file = string_of_range(path, k + 3, m);
    let prefix = join2(package.as_str(), "-");
    proof {
        reveal_strlit("-");
        assert("-"@ =~= seq!['-']);
    }
    let fc = chars_of(file.as_str());
    let pc = chars_of(prefix.as_str());
    let v1 = if has_at(&fc, 0, &pc) {
        assert(fc@.skip(0) =~= fc@);
        string_of_range(file.as_str(), pc.len(), fc.len())
    } else {
        assert(fc@.skip(0) =~= fc@);
        string_of_range(file.as_str(), 0, fc.len())
    };
    assert(file@.subrange(0, fc@.len() as int) =~= file@);
    let vc = chars_of(v1.as_str());
    let t = chars_of(".tgz");
    proof {
        reveal_strlit(".tgz");
        assert(t@ =~= tgz());
    }
    let version = if vc.len() >= 4 && has_at(&vc, vc.len() - 4, &t) {
        assert(vc@.skip(vc@.len() - 4).take(4) =~= vc@.skip(vc@.len() - 4));
        string_of_range(v1.as_str(), 0, vc.len() - 4)
    } else {
        proof {
            if vc@.len() >= 4 && ends_with(vc@, tgz()) {
                assert(vc@.skip(vc@.len() - 4).take(4) =~= vc@.skip(vc@.len() - 4));
            }
        }
        assert(v1@.subrange(0, vc@.len() as int) =~= v1@);
        string_of_range(v1.as_str(), 0, vc.len())
    };
    assert(path@.take(k as int) =~= path@.subrange(0, k as int));
    Some(TarballPath { package, version, file })
}

impl TarballPath {
    /// Where the tarball is stored: `package/version/file`.
    pub fn storage_path(&self) -> (r: String)
        ensures
            r@ == artifact_path(self.package@, self.version@, self.file@),
    {
        let a = join2(self.package.as_str(), "/");
        let b = join2(a.as_str(), self.version.as_str());
        let c = join2(b.as_str(), "/");
        let d = join2(c.as_str(), self.file.as_str());
        proof {
            reveal_strlit("/");
            assert("/"@ =~= seq!['/']);
        }
        d
    }
}

/// Whether `r` is what a GET request asks for. With an `npm-command`
/// header, a path that holds `.tgz` asks for the tarball stored at
/// `package/version/file` (see [`tarball_of`]) and any other for the
/// package's metadata; without one the path names a stored file.
pub open spec fn get_action_is(has_npm_command: bool, path: Seq<char>, r: NpmGetAction) -> bool {
    if !has_npm_command {
        r is File
    } else if !contains(path, tgz()) {
        r is Metadata
    } else {
        match tarball_of(path) {
            Some(t) => r matches NpmGetAction::Tarball(x) && x.package@ == t.0 && x.version@
                == t.1 && x.file@ == t.2,
            None => r is BadTarballPath,
        }
    }
}

/// What a GET request asks for. With an `npm-command` header, a path that
/// holds `.tgz` asks for a tarball and any other for the package's metadata;
/// without one the path names a stored file.
pub fn npm_get_action(has_npm_command: bool, path: &str) -> (r: NpmGetAction)
    ensures
        get_action_is(has_npm_command, path@, r),
{
    if !has_npm_command {
        return NpmGetAction::File;
    }
    let t = chars_of(".tgz");
    proof {
        reveal_strlit(".tgz");
        assert(t@ =~= tgz());
    }
    let cs = chars_of(path);
    if find_seq(&cs, &t, 0) >= cs.len() {
        return NpmGetAction::Metadata;
    }
    match parse_tarball_path(path) {
        Some(x) => NpmGetAction::Tarball(x),
        None => NpmGetAction::BadTarballPath,
    }
}

/// The path without its first `-/user/org.couchdb.user:`.
pub open spec fn user_name_of(path: Seq<char>) -> Seq<char> {
    let k = find_seq_from(path, couch_user_prefix(), 0);
    path.take(k) + path.skip(k + couch_user_prefix().len())
}

/// The user that a user verification path names: the path without its
/// first `-/user/org.couchdb.user:`; `None` where it is no such path.
pub fn user_verification_name(path: &str) -> (r: Option<String>)
    ensures
        names_couch_user(path@) ==> (r matches Some(u) && u@ == user_name_of(path@)),
        !names_couch_user(path@) ==> r is None,
{
    if !couch_user_path_matches(path) {
        return None;
    }
    let cs = chars_of(path);
    let p = chars_of("-/user/org.couchdb.user:");
    proof {
        reveal_strlit("-/user/org.couchdb.user:");
        assert(p@ =~= couch_user_prefix());
        let i = choose|i: int|
            0 <= i && i + couch_user_prefix().len() < path@.len() && #[trigger] path@.subrange(
                i,
                i + couch_user_prefix().len(),
            ) == couch_user_prefix() && crate::external::is_ascii_alpha(
                path@[i + couch_user_prefix().len()],
            );
        lemma_find_seq_complete(cs@, p@, 0, i);
    }
    let k = find_seq(&cs, &p, 0);
    proof {
        lemma_find_seq_found(cs@, p@, 0);
    }
    let n = cs.len();
    let before = string_of_range(path, 0, k);
    let after = string_of_range(path, k + p.len(), n);
    assert(path@.subrange(0, k as int) =~= path@.take(k as int));
    assert(path@.subrange(k + p@.len(), cs@.len() as int) =~= path@.skip(k + p@.len()));
    Some(join2(before.as_str(), after.as_str()))
}

/// The acknowledgement of a user verification: `user '<name>' created`.
pub fn login_created_message(username: &str) -> (r: String)
    ensures
        r@ == seq!['u', 's', 'e', 'r', ' ', '\''] + username@ + seq![
            '\'',
            ' ',
            'c',
            'r',
            'e',
            'a',
            't',
            'e',
            'd',
        ],
{
    let a = join2("user '", username);
    let r = join2(a.as_str(), "' created");
    proof {
        reveal_strlit("user '");
        reveal_strlit("' created");
        assert("user '"@ =~= seq!['u', 's', 'e', 'r', ' ', '\'']);
        assert("' created"@ =~= seq!['\'', ' ', 'c', 'r', 'e', 'a', 't', 'e', 'd']);
    }
    r
}

/// What a PUT request that is no login asks for, by its `npm-command`.
pub fn npm_put_action(npm_command: Option<&str>) -> (r: NpmPutAction)
    ensures
        match npm_command {
            None => r is MissingCommand,
            Some(c) => if c@ == seq!['p', 'u', 'b', 'l', 'i', 's', 'h'] {
                r is Publish
            } else {
                r matches NpmPutAction::BadCommand(m) && m@ == seq![
                    'B',
                    'a',
                    'd',
                    ' ',
                    'R',
                    'e',
                    'q',
                    'u',
                    'e',
                    's',
                    't',
                    ' ',
                ] + c@
            },
        },
{
    match npm_command {
        None => NpmPutAction::MissingCommand,
        Some(c) => {
            proof {
                reveal_strlit("publish");
                reveal_strlit("Bad Request ");
                assert("publish"@ =~= seq!['p', 'u', 'b', 'l', 'i', 's', 'h']);
                assert("Bad Request "@ =~= seq![
                    'B',
                    'a',
                    'd',
                    ' ',
                    'R',
                    'e',
                    'q',
                    'u',
                    'e',
                    's',
                    't',
                    ' ',
                ]);
            }
            if crate::text::chars_eq(&chars_of(c), &chars_of("publish")) {
                NpmPutAction::Publish
            } else {
                NpmPutAction::BadCommand(join2("Bad Request ", c))
            }
        },
    }
}

/// One version of a publish request and its metadata, as JSON bytes.
#[derive(Debug)]
pub struct PublishVersion {
    pub version: String,
    pub metadata: Vec<u8>,
}

/// One attachment of a publish request: its file name and its contents in base64.
#[derive(Debug)]
pub struct PublishAttachment {
    pub key: String,
    pub data: String,
}

/// A publish request.
#[derive(Debug)]
pub struct PublishRequest {
    pub name: String,
    pub versions: Vec<PublishVersion>,
    pub attachments: Vec<PublishAttachment>,
}

/// A file to store, by its path within the repository.
#[derive(Debug)]
pub struct FileWrite {
    pub path: String,
    pub data: Vec<u8>,
}

/// The files that a publish stores, in order, and the attachment whose
/// contents were no base64, if one stopped it. The writes before the failure
/// stand: a publish is not atomic.
#[derive(Debug)]
pub struct PublishPlan {
    pub writes: Vec<FileWrite>,
    pub failed: Option<String>,
}

pub open spec fn package_json() -> Seq<char> {
    seq!['p', 'a', 'c', 'k', 'a', 'g', 'e', '.', 'j', 's', 'o', 'n']
}

pub open spec fn writes_view(w: Seq<FileWrite>) -> Seq<(Seq<char>, Seq<u8>)> {
    w.map_values(|f: FileWrite| (f.path@, f.data@))
}

pub open spec fn versions_view(v: Seq<PublishVersion>) -> Seq<(Seq<char>, Seq<u8>)> {
    v.map_values(|x: PublishVersion| (x.version@, x.metadata@))
}

pub open spec fn attachments_view(a: Seq<PublishAttachment>) -> Seq<(Seq<char>, Seq<char>)> {
    a.map_values(|x: PublishAttachment| (x.key@, x.data@))
}

/// The files that one attachment stores: for each version, the attachment
/// at `name/version/key`, then the version's metadata at
/// `name/version/package.json`.
pub open spec fn attachment_writes(
    name: Seq<char>,
    versions: Seq<(Seq<char>, Seq<u8>)>,
    key: Seq<char>,
    data: Seq<u8>,
) -> Seq<(Seq<char>, Seq<u8>)> {
    Seq::new(
        2 * versions.len(),
        |j: int|
            if j % 2 == 0 {
                (artifact_path(name, versions[j / 2].0, key), data)
            } else {
                (artifact_path(name, versions[j / 2].0, package_json()), versions[j / 2].1)
            },
    )
}

/// The files that the attachments from `i` on store, and the key of the
/// first one whose contents are no base64.
pub open spec fn publish_from(
    name: Seq<char>,
    versions: Seq<(Seq<char>, Seq<u8>)>,
    atts: Seq<(Seq<char>, Seq<char>)>,
    i: int,
) -> (Seq<(Seq<char>, Seq<u8>)>, Option<Seq<char>>)
    decreases atts.len() - i,
{
    if i < 0 || i >= atts.len() {
        (Seq::empty(), None)
    } else {
        match base64_decoded(atts[i].1) {
            None => (Seq::empty(), Some(atts[i].0)),
            Some(d) => {
                let rest = publish_from(name, versions, atts, i + 1);
                (attachment_writes(name, versions, atts[i].0, d) + rest.0, rest.1)
            },
        }
    }
}

/// What a publish request stores.
pub open spec fn publish_spec(req: PublishRequest) -> (Seq<(Seq<char>, Seq<u8>)>, Option<Seq<char>>) {
    publish_from(req.name@, versions_view(req.versions@), attachments_view(req.attachments@), 0)
}

fn artifact_path_of(package: &str, version: &str, file: &str) -> (r: String)
    ensures
        r@ == artifact_path(package@, version@, file@),
{
    let a = join2(package, "/");
    let b = join2(a.as_str(), version);
    let c = join2(b.as_str(), "/");
    proof {
        reveal_strlit("/");
        assert("/"@ =~= seq!['/']);
    }
    join2(c.as_str(), file)
}

fn copy_bytes(v: &Vec<u8>) -> (r: Vec<u8>)
    ensures
        r@ == v@,
{
    let mut r: Vec<u8> = Vec::new();
    let mut i: usize = 0;
    while i < v.len()
        invariant
            i <= v@.len(),
            r@ == v@.take(i as int),
        decreases v@.len() - i,
    {
        r.push(v[i]);
        i = i + 1;
        assert(r@ =~= v@.take(i as int));
    }
    assert(r@ =~= v@);
    r
}

/// The files that one attachment, decoded to `data`, stores: for each
/// version, `data` at `name/version/key`, then the version's metadata at
/// `name/version/package.json`.
pub fn plan_attachment(req: &PublishRequest, key: &str, data: &Vec<u8>) -> (r: Vec<FileWrite>)
    ensures
        writes_view(r@) == attachment_writes(req.name@, versions_view(req.versions@), key@, data@),
{
    let ghost vs = versions_view(req.versions@);
    let ghost aw = attachment_writes(req.name@, vs, key@, data@);
    let mut writes: Vec<FileWrite> = Vec::new();
    let mut j: usize = 0;
    while j < req.versions.len()
        invariant
            j <= req.versions@.len(),
            vs == versions_view(req.versions@),
            aw == attachment_writes(req.name@, vs, key@, data@),
            writes_view(writes@) == aw.take(2 * j),
        decreases req.versions@.len() - j,
    {
        let v = &req.versions[j];
        let artifact = artifact_path_of(req.name.as_str(), v.version.as_str(), key);
        let metadata_path = artifact_path_of(req.name.as_str(), v.version.as_str(), "package.json");
        proof {
            reveal_strlit("package.json");
            assert("package.json"@ =~= package_json());
            let jj = j as int;
            assert((2 * jj) % 2 == 0 && (2 * jj) / 2 == jj);
            assert((2 * jj + 1) % 2 == 1 && (2 * jj + 1) / 2 == jj);
            assert(vs[jj] == (v.version@, v.metadata@));
            assert(aw[2 * jj] == (artifact@, data@));
            assert(aw[2 * jj + 1] == (metadata_path@, v.metadata@));
        }
        let ghost before = writes_view(writes@);
        writes.push(FileWrite { path: artifact, data: copy_bytes(data) });
        writes.push(FileWrite { path: metadata_path, data: copy_bytes(&v.metadata) });
        proof {
            assert(writes_view(writes@) =~= before.push(aw[2 * j as int]).push(aw[2 * j + 1]));
            assert(aw.take(2 * j + 2) =~= aw.take(2 * j).push(aw[2 * j]).push(aw[2 * j + 1]));
        }
        j = j + 1;
    }
    assert(aw.take(2 * j) =~= aw);
    writes
}

/// The files that a publish stores: for each attachment in turn, decoded
/// from base64, and each version, the attachment at `name/version/key` and
/// the version's metadata at `name/version/package.json`. An attachment that
/// is no base64 stops the publish there.
pub fn plan_publish(req: &PublishRequest) -> (r: PublishPlan)
    ensures
        writes_view(r.writes@) == publish_spec(*req).0,
        opt_chars(r.failed) == publish_spec(*req).1,
{
    let ghost name = req.name@;
    let ghost vs = versions_view(req.versions@);
    let ghost atts = attachments_view(req.attachments@);
    let mut writes: Vec<FileWrite> = Vec::new();
    let mut i: usize = 0;
    while i < req.attachments.len()
        invariant
            i <= req.attachments@.len(),
            name == req.name@,
            vs == versions_view(req.versions@),
            atts == attachments_view(req.attachments@),
            publish_from(name, vs, atts, 0).0 == writes_view(writes@) + publish_from(
                name,
                vs,
                atts,
                i as int,
            ).0,
            publish_from(name, vs, atts, 0).1 == publish_from(name, vs, atts, i as int).1,
        decreases req.attachments@.len() - i,
    {
        let att = &req.attachments[i];
        match decode_base64(att.data.as_str()) {
            Err(_) => {
                assert(writes_view(writes@) + Seq::empty() =~= writes_view(writes@));
                return PublishPlan { writes, failed: Some(att.key.clone()) };
            },
            Ok(data) => {
                let ghost base = writes_view(writes@);
                let mut more = plan_attachment(req, att.key.as_str(), &data);
                let ghost aw = writes_view(more@);
                writes.append(&mut more);
                assert(writes_view(writes@) =~= base + aw);
                assert(writes_view(writes@) + publish_from(name, vs, atts, i + 1).0 =~= base + (aw
                    + publish_from(name, vs, atts, i + 1).0));
            },
        }
        i = i + 1;
    }
    PublishPlan { writes, failed: None }
}

pub open spec fn opt_chars(o: Option<String>) -> Option<Seq<char>> {
    match o {
        Some(s) => Some(s@),
        None => None,
    }
}

/// Publishing one version with one attachment whose contents decode to `d`
/// stores exactly `d` at `name/version/key`, then the version's metadata at
/// `name/version/package.json`, and nothing fails.
pub proof fn lemma_publish_round_trip(req: PublishRequest, d: Seq<u8>)
    requires
        req.versions@.len() == 1,
        req.attachments@.len() == 1,
        base64_decoded(req.attachments@[0].data@) == Some(d),
    ensures
        publish_spec(req).0 == seq![
            (artifact_path(req.name@, req.versions@[0].version@, req.attachments@[0].key@), d),
            (
                artifact_path(req.name@, req.versions@[0].version@, package_json()),
                req.versions@[0].metadata@,
            ),
        ],
        publish_spec(req).1 is None,
{
    let name = req.name@;
    let vs = versions_view(req.versions@);
    let atts = attachments_view(req.attachments@);
    assert(publish_from(name, vs, atts, 1) == (Seq::<(Seq<char>, Seq<u8>)>::empty(), None::<Seq<char>>));
    let aw = attachment_writes(name, vs, atts[0].0, d);
    assert(0int / 2 == 0 && 1int / 2 == 0 && 0int % 2 == 0 && 1int % 2 == 1);
    assert(aw + Seq::empty() =~= seq![
        (artifact_path(req.name@, req.versions@[0].version@, req.attachments@[0].key@), d),
        (
            artifact_path(req.name@, req.versions@[0].version@, package_json()),
            req.versions@[0].metadata@,
        ),
    ]);
}

/// The version that a stored path holds metadata of: `package/version/package.json`,
/// with a version that is not empty and holds no `/`.
pub open spec fn metadata_version(path: Seq<char>, package: Seq<char>) -> Option<Seq<char>> {
    let head = package + seq!['/'];
    let tail = seq!['/'] + package_json();
    if path.len() > head.len() + tail.len() && starts_with(path, head) && ends_with(path, tail) {
        let v = path.subrange(head.len() as int, path.len() - tail.len());
        if !v.contains('/') {
            Some(v)
        } else {
            None
        }
    } else {
        None
    }
}

/// The versions of `package` that the stored paths from `i` on hold metadata of.
pub open spec fn versions_from(paths: Seq<Seq<char>>, package: Seq<char>, i: int) -> Seq<Seq<char>>
    decreases paths.len() - i,
{
    if i < 0 || i >= paths.len() {
        Seq::empty()
    } else {
        match metadata_version(paths[i], package) {
            Some(v) => seq![v] + versions_from(paths, package, i + 1),
            None => versions_from(paths, package, i + 1),
        }
    }
}

/// The version that a stored path holds metadata of, if any.
pub fn metadata_version_of(path: &str, package: &str) -> (r: Option<String>)
    ensures
        opt_chars(r) == metadata_version(path@, package@),
{
    let head = join2(package, "/");
    let tail = chars_of("/package.json");
    proof {
        reveal_strlit("/");
        reveal_strlit("/package.json");
        assert("/"@ =~= seq!['/']);
        assert(tail@ =~= seq!['/'] + package_json());
    }
    let hc = chars_of(head.as_str());
    let pc = chars_of(path);
    let n = pc.len();
    if n <= hc.len() || n - hc.len() <= tail.len() {
        return None;
    }
    if !has_at(&pc, 0, &hc) {
        assert(pc@.skip(0) =~= pc@);
        return None;
    }
    assert(pc@.skip(0) =~= pc@);
    let e = n - tail.len();
    if !has_at(&pc, e, &tail) {
        proof {
            if ends_with(pc@, tail@) {
                assert(pc@.skip(e as int).take(tail@.len() as int) =~= pc@.skip(e as int));
            }
        }
        return None;
    }
    assert(pc@.skip(e as int).take(tail@.len() as int) =~= pc@.skip(e as int));
    let mut k = hc.len();
    while k < e
        invariant
            hc@.len() <= k <= e,
            e <= pc@.len(),
            pc@ == path@,
            e == pc@.len() - tail@.len(),
            hc@ == package@ + seq!['/'],
            tail@ == seq!['/'] + package_json(),
            starts_with(pc@, hc@),
            ends_with(pc@, tail@),
            pc@.len() > hc@.len() + tail@.len(),
            forall|x: int| hc@.len() <= x < k ==> pc@[x] != '/',
        decreases e - k,
    {
        if pc[k] == '/' {
            assert(pc@.subrange(hc@.len() as int, e as int)[k - hc@.len()] == '/');
            assert(pc@.subrange(hc@.len() as int, e as int).contains('/'));
            return None;
        }
        k = k + 1;
    }
    let ghost v = pc@.subrange(hc@.len() as int, e as int);
    assert(!v.contains('/')) by {
        if v.contains('/') {
            let x = choose|x: int| 0 <= x < v.len() && v[x] == '/';
            assert(pc@[hc@.len() + x] == '/');
        }
    }
    Some(string_of_range(path, hc.len(), e))
}

/// The versions of `package` whose metadata the stored paths hold, in order.
pub fn package_versions(paths: &Vec<String>, package: &str) -> (r: Vec<String>)
    ensures
        r@.map_values(|s: String| s@) == versions_from(
            paths@.map_values(|s: String| s@),
            package@,
            0,
        ),
{
    let ghost ps = paths@.map_values(|s: String| s@);
    let mut out: Vec<String> = Vec::new();
    let mut i: usize = 0;
    while i < paths.len()
        invariant
            i <= paths@.len(),
            ps == paths@.map_values(|s: String| s@),
            versions_from(ps, package@, 0) == out@.map_values(|s: String| s@) + versions_from(
                ps,
                package@,
                i as int,
            ),
        decreases paths@.len() - i,
    {
        let ghost before = out@.map_values(|s: String| s@);
        match metadata_version_of(paths[i].as_str(), package) {
            Some(v) => {
                out.push(v);
                assert(out@.map_values(|s: String| s@) =~= before.push(v@));
                assert(before + versions_from(ps, package@, i as int) =~= before.push(v@)
                    + versions_from(ps, package@, i + 1));
            },
            None => {},
        }
        i = i + 1;
    }
    assert(out@.map_values(|s: String| s@) + Seq::empty() =~= out@.map_values(|s: String| s@));
    out
}

/// What an NPM PUT request that passed its checks leads to.
#[derive(Debug)]
pub enum NpmPutStep {
    /// A user verification: check this user's credentials from the body,
    /// then answer with [`user_verification_answer`].
    VerifyUser(String),
    /// A publish: the files to store, and the attachment that stopped it, if any.
    Publish(PublishPlan),
    /// A publish whose body is no publish request.
    InvalidPublishBody,
    /// A bad request, with its message.
    BadRequest(String),
}

/// The answer to a user verification.
#[derive(Debug)]
pub enum NpmLoginAnswer {
    /// The credentials hold; the `ok` message.
    Created(String),
    NotAuthorized,
}

pub open spec fn missing_command_message() -> Seq<char> {
    seq!['M', 'i', 's', 's', 'i', 'n', 'g', ' ', 'N', 'P', 'M', '-', 'C', 'o', 'm', 'm', 'a', 'n', 'd']
}

pub open spec fn bad_request_prefix() -> Seq<char> {
    seq!['B', 'a', 'd', ' ', 'R', 'e', 'q', 'u', 'e', 's', 't', ' ']
}

/// Whether `step` is what a PUT request that is no login, from a caller who
/// may deploy, leads to: by its `npm-command`, a publish of the parsed body,
/// or a bad request naming the command, or saying that none was given.
pub open spec fn put_step_is(
    npm_command: Option<Seq<char>>,
    body: Option<PublishRequest>,
    step: NpmPutStep,
) -> bool {
    match npm_command {
        None => step matches NpmPutStep::BadRequest(m) && m@ == missing_command_message(),
        Some(c) => if c == seq!['p', 'u', 'b', 'l', 'i', 's', 'h'] {
            match body {
                None => step is InvalidPublishBody,
                Some(req) => step matches NpmPutStep::Publish(plan) && writes_view(plan.writes@)
                    == publish_spec(req).0 && opt_chars(plan.failed) == publish_spec(req).1,
            }
        } else {
            step matches NpmPutStep::BadRequest(m) && m@ == bad_request_prefix() + c
        },
    }
}

pub open spec fn opt_str(o: Option<&str>) -> Option<Seq<char>> {
    match o {
        Some(s) => Some(s@),
        None => None,
    }
}

pub open spec fn opt_request(o: Option<&PublishRequest>) -> Option<PublishRequest> {
    match o {
        Some(r) => Some(*r),
        None => None,
    }
}

/// What a PUT request that is no login, from a caller who may deploy, leads
/// to, by its `npm-command` and its body read as a publish request.
pub fn npm_put_step(npm_command: Option<&str>, body: Option<&PublishRequest>) -> (r: NpmPutStep)
    ensures
        put_step_is(opt_str(npm_command), opt_request(body), r),
{
    match npm_put_action(npm_command) {
        NpmPutAction::MissingCommand => {
            let m = String::from_str("Missing NPM-Command");
            proof {
                reveal_strlit("Missing NPM-Command");
            }
            assert(m@ =~= missing_command_message());
            NpmPutStep::BadRequest(m)
        },
        NpmPutAction::BadCommand(m) => NpmPutStep::BadRequest(m),
        NpmPutAction::Publish => match body {
            None => NpmPutStep::InvalidPublishBody,
            Some(req) => NpmPutStep::Publish(plan_publish(req)),
        },
    }
}

/// The answer to a user verification of `name`: `user '<name>' created`
/// where the credentials hold.
pub fn user_verification_answer(name: &str, valid: bool) -> (r: NpmLoginAnswer)
    ensures
        valid ==> (r matches NpmLoginAnswer::Created(m) && m@ == seq!['u', 's', 'e', 'r', ' ', '\'']
            + name@ + seq!['\'', ' ', 'c', 'r', 'e', 'a', 't', 'e', 'd']),
        !valid ==> r is NotAuthorized,
{
    if valid {
        NpmLoginAnswer::Created(login_created_message(name))
    } else {
        NpmLoginAnswer::NotAuthorized
    }
}

/// The versions listed in a package's metadata, from the stored paths;
/// `None`, for a package not found, where no version's metadata is stored.
pub fn package_metadata(paths: &Vec<String>, package: &str) -> (r: Option<Vec<String>>)
    ensures
        match r {
            None => versions_from(paths@.map_values(|s: String| s@), package@, 0).len() == 0,
            Some(v) => v@.len() > 0 && v@.map_values(|s: String| s@) == versions_from(
                paths@.map_values(|s: String| s@),
                package@,
                0,
            ),
        },
{
    let v = package_versions(paths, package);
    if v.len() == 0 {
        None
    } else {
        Some(v)
    }
}

} // verus!
