//! The permission engine: whether a user may read from or deploy to a
//! repository.
//!
//! A permission pattern reads `storage/repository`. The storage part is `*`
//! or a storage name, compared without regard to ASCII case; a pattern whose
//! storage part does not match is skipped. The repository part is `*`, a
//! repository name, or a JSON object `{"policy": .., "type": ..}` whose fields,
//! where present, must equal the repository's (a filter is read as an object
//! of strings or nulls; any other value makes it an error); a filter that does not admit
//! the repository is skipped too. The first pattern that matches wins, a
//! pattern that cannot be evaluated is an error, and an empty pattern list
//! allows every repository.

use vstd::prelude::*;
use vstd::string::*;

use crate::external::{fields_view, json_string_fields, parse_string_object};
use crate::repository::{
    policy_name, policy_named, repository_type_name, Policy, RepositoryConfig, Visibility,
};
use crate::text::{
    before_first, chars_eq, chars_eq_ignore_ascii_case, chars_of, ends_with,
    eq_ignore_ascii_case, find_char, find_from, first_index, starts_with, string_of_range,
};

verus! {

/// Why a permission pattern could not be evaluated.
#[derive(Debug)]
pub enum PermissionError {
    /// The filter names a policy that does not exist; it holds that name.
    ParseError(String),
    /// The pattern has no storage part.
    StorageClassifier,
    /// The pattern has no repository part.
    RepositoryClassifier,
    /// The filter is not a JSON object of strings.
    RepositoryClassifierParseError(serde_json::Error),
}

/// A list of permission patterns.
#[derive(Clone, Debug)]
pub struct RepositoryPermission {
    pub permissions: Vec<String>,
}

/// What a user may do.
#[derive(Clone, Debug)]
pub struct UserPermissions {
    pub disabled: bool,
    pub admin: bool,
    pub user_manager: bool,
    pub repository_manager: bool,
    pub deployer: RepositoryPermission,
    pub viewer: RepositoryPermission,
}

/// A filter on a repository's policy and type, read from a pattern's
/// repository part.
#[derive(Clone, Debug)]
pub struct RepositoryPermissionValue {
    pub policy: Option<Policy>,
    pub repo_type: Option<String>,
}

/// The outcome of evaluating patterns against a repository.
#[derive(Clone, Copy, Debug, PartialEq, Eq, Structural)]
pub enum Verdict {
    Allow,
    Deny,
    MissingRepositoryPart,
    BadFilter,
    UnknownPolicy,
}

impl RepositoryPermission {
    /// The patterns, as character sequences.
    pub open spec fn patterns(&self) -> Seq<Seq<char>> {
        self.permissions@.map_values(|s: String| s@)
    }
}

impl Default for RepositoryPermission {
    /// The single pattern `*`.
    fn default() -> (r: Self)
        ensures
            r.patterns() == seq![seq!['*']],
    {
        let star = String::from_str("*");
        proof {
            reveal_strlit("*");
        }
        assert(star@ =~= seq!['*']);
        let mut permissions: Vec<String> = Vec::new();
        permissions.push(star);
        let r = RepositoryPermission { permissions };
        assert(r.patterns() =~= seq![seq!['*']]);
        r
    }
}

impl Default for UserPermissions {
    /// No flag set, and the default pattern list for deploying and viewing.
    fn default() -> (r: Self)
        ensures
            !r.disabled && !r.admin && !r.user_manager && !r.repository_manager,
            r.deployer.patterns() == seq![seq!['*']],
            r.viewer.patterns() == seq![seq!['*']],
    {
        UserPermissions {
            disabled: false,
            admin: false,
            user_manager: false,
            repository_manager: false,
            deployer: RepositoryPermission::default(),
            viewer: RepositoryPermission::default(),
        }
    }
}

pub open spec fn star() -> Seq<char> {
    seq!['*']
}

pub open spec fn policy_key() -> Seq<char> {
    seq!['p', 'o', 'l', 'i', 'c', 'y']
}

pub open spec fn type_key() -> Seq<char> {
    seq!['t', 'y', 'p', 'e']
}

/// The storage part of a pattern: what comes before the first `/`.
pub open spec fn storage_segment(p: Seq<char>) -> Seq<char> {
    before_first(p, '/')
}

/// The repository part of a pattern: what lies between its first and its
/// second `/` (or its end), if it has a `/`.
pub open spec fn repository_segment(p: Seq<char>) -> Option<Seq<char>> {
    let k = first_index(p, '/');
    if k < p.len() {
        Some(p.subrange(k + 1, find_from(p, '/', k + 1)))
    } else {
        None
    }
}

pub open spec fn storage_matches(segment: Seq<char>, storage: Seq<char>) -> bool {
    segment == star() || eq_ignore_ascii_case(segment, storage)
}

pub open spec fn is_filter(segment: Seq<char>) -> bool {
    starts_with(segment, seq!['{']) && ends_with(segment, seq!['}'])
}

/// The value of the first entry named `key` at or after `i`.
pub open spec fn field_from(fields: Seq<(Seq<char>, Option<Seq<char>>)>, key: Seq<char>, i: int) -> Option<
    Seq<char>,
>
    decreases fields.len() - i,
{
    if i < 0 || i >= fields.len() {
        None
    } else if fields[i].0 == key {
        fields[i].1
    } else {
        field_from(fields, key, i + 1)
    }
}

/// The value of the entry named `key`, where it is present and not null.
pub open spec fn field(fields: Seq<(Seq<char>, Option<Seq<char>>)>, key: Seq<char>) -> Option<
    Seq<char>,
> {
    field_from(fields, key, 0)
}

/// The filter that JSON entries describe: `None` where the policy they name
/// does not exist.
pub open spec fn filter_value(fields: Seq<(Seq<char>, Option<Seq<char>>)>) -> Option<
    (Option<Policy>, Option<Seq<char>>),
> {
    match field(fields, policy_key()) {
        Some(s) => match policy_named(s) {
            Some(p) => Some((Some(p), field(fields, type_key()))),
            None => None,
        },
        None => Some((None, field(fields, type_key()))),
    }
}

/// Whether a filter admits a repository.
pub open spec fn filter_admits(
    policy: Option<Policy>,
    repo_type: Option<Seq<char>>,
    repo: RepositoryConfig,
) -> bool {
    (policy matches Some(p) ==> p == repo.policy) && (repo_type matches Some(t) ==> t
        == repository_type_name(repo.repository_type))
}

/// What one pattern decides about a repository: allow where it matches, an
/// error where it cannot be evaluated, `None` where it does not match.
pub open spec fn pattern_verdict(p: Seq<char>, repo: RepositoryConfig) -> Option<Verdict> {
    if !storage_matches(storage_segment(p), repo.storage@) {
        None
    } else {
        match repository_segment(p) {
            None => Some(Verdict::MissingRepositoryPart),
            Some(rp) => if rp == star() || rp == repo.name@ {
                Some(Verdict::Allow)
            } else if is_filter(rp) {
                match json_string_fields(rp) {
                    None => Some(Verdict::BadFilter),
                    Some(f) => match filter_value(f) {
                        None => Some(Verdict::UnknownPolicy),
                        Some(v) => if filter_admits(v.0, v.1, repo) {
                            Some(Verdict::Allow)
                        } else {
                            None
                        },
                    },
                }
            } else {
                None
            },
        }
    }
}

/// What the patterns from `i` on decide: the first that decides, else deny.
pub open spec fn verdict_from(ps: Seq<Seq<char>>, repo: RepositoryConfig, i: int) -> Verdict
    decreases ps.len() - i,
{
    if i < 0 || i >= ps.len() {
        Verdict::Deny
    } else {
        match pattern_verdict(ps[i], repo) {
            Some(v) => v,
            None => verdict_from(ps, repo, i + 1),
        }
    }
}

/// What a pattern list decides about a repository: an empty list allows.
pub open spec fn can_verdict(ps: Seq<Seq<char>>, repo: RepositoryConfig) -> Verdict {
    if ps.len() == 0 {
        Verdict::Allow
    } else {
        verdict_from(ps, repo, 0)
    }
}

/// Whether an evaluation's result is the one that a verdict calls for.
pub open spec fn reports(r: Result<bool, PermissionError>, v: Verdict) -> bool {
    match v {
        Verdict::Allow => r matches Ok(b) && b,
        Verdict::Deny => r matches Ok(b) && !b,
        Verdict::MissingRepositoryPart => r matches Err(PermissionError::RepositoryClassifier),
        Verdict::BadFilter => r matches Err(PermissionError::RepositoryClassifierParseError(_)),
        Verdict::UnknownPolicy => r matches Err(PermissionError::ParseError(_)),
    }
}

pub open spec fn opt_view(o: Option<String>) -> Option<Seq<char>> {
    match o {
        Some(s) => Some(s@),
        None => None,
    }
}

/// The value of the entry named `key`, where it is present and not null.
fn lookup_field(fields: &Vec<(String, Option<String>)>, key: &Vec<char>) -> (r: Option<String>)
    ensures
        opt_view(r) == field(fields_view(fields@), key@),
{
    let ghost fv = fields_view(fields@);
    let mut i: usize = 0;
    while i < fields.len()
        invariant
            i <= fields@.len(),
            fv == fields_view(fields@),
            field(fv, key@) == field_from(fv, key@, i as int),
        decreases fields@.len() - i,
    {
        let k = chars_of(fields[i].0.as_str());
        if chars_eq(&k, key) {
            return fields[i].1.clone();
        }
        i = i + 1;
    }
    None
}

/// The filter that JSON object entries describe. A `policy` entry must name
/// a policy; the error holds the name otherwise.
pub fn filter_from_fields(fields: &Vec<(String, Option<String>)>) -> (r: Result<
    RepositoryPermissionValue,
    PermissionError,
>)
    ensures
        match filter_value(fields_view(fields@)) {
            Some(v) => r matches Ok(f) && f.policy == v.0 && opt_view(f.repo_type) == v.1,
            None => r matches Err(PermissionError::ParseError(s)) && field(
                fields_view(fields@),
                policy_key(),
            ) == Some(s@),
        },
{
    let pk = chars_of("policy");
    let tk = chars_of("type");
    proof {
        reveal_strlit("policy");
        reveal_strlit("type");
        assert(pk@ =~= policy_key());
        assert(tk@ =~= type_key());
    }
    let repo_type = lookup_field(fields, &tk);
    match lookup_field(fields, &pk) {
        Some(s) => match Policy::from_name(&chars_of(s.as_str())) {
            Some(p) => Ok(RepositoryPermissionValue { policy: Some(p), repo_type }),
            None => Err(PermissionError::ParseError(s)),
        },
        None => Ok(RepositoryPermissionValue { policy: None, repo_type }),
    }
}

/// Whether a filter admits a repository: its policy and type, where given,
/// equal the repository's.
pub fn filter_allows(value: &RepositoryPermissionValue, repo: &RepositoryConfig) -> (r: bool)
    ensures
        r == filter_admits(value.policy, opt_view(value.repo_type), *repo),
{
    if let Some(p) = value.policy {
        if p != repo.policy {
            return false;
        }
    }
    if let Some(t) = &value.repo_type {
        if !chars_eq(&chars_of(t.as_str()), &repo.repository_type.name_chars()) {
            return false;
        }
    }
    true
}

/// What one pattern decides about a repository; `None` where it is skipped.
fn pattern_check(p: &String, repo: &RepositoryConfig) -> (r: Option<Result<bool, PermissionError>>)
    ensures
        match pattern_verdict(p@, *repo) {
            None => r is None,
            Some(v) => r matches Some(x) && reports(x, v),
        },
{
    let cs = chars_of(p.as_str());
    let k = find_char(&cs, '/', 0);
    let storage_part = chars_of(string_of_range(p.as_str(), 0, k).as_str());
    assert(storage_part@ =~= storage_segment(p@));
    let is_star = storage_part.len() == 1 && storage_part[0] == '*';
    assert(is_star == (storage_part@ == star())) by {
        if storage_part@ == star() {
            assert(storage_part@[0] == '*');
        }
        if is_star {
            assert(storage_part@ =~= star());
        }
    }
    if !is_star && !chars_eq_ignore_ascii_case(&storage_part, &chars_of(repo.storage.as_str())) {
        return None;
    }
    if k == cs.len() {
        return Some(Err(PermissionError::RepositoryClassifier));
    }
    let m = find_char(&cs, '/', k + 1);
    let rp_string = string_of_range(p.as_str(), k + 1, m);
    let rp = chars_of(rp_string.as_str());
    assert(repository_segment(p@) == Some(rp@));
    let rp_star = rp.len() == 1 && rp[0] == '*';
    assert(rp_star == (rp@ == star())) by {
        if rp@ == star() {
            assert(rp@[0] == '*');
        }
        if rp_star {
            assert(rp@ =~= star());
        }
    }
    if rp_star || chars_eq(&rp, &chars_of(repo.name.as_str())) {
        return Some(Ok(true));
    }
    let n = rp.len();
    let filter = n >= 1 && rp[0] == '{' && rp[n - 1] == '}';
    assert(filter == is_filter(rp@)) by {
        if n >= 1 {
            assert(rp@.take(1) =~= seq![rp@[0]]);
            assert(rp@.skip(n - 1) =~= seq![rp@[n - 1]]);
        }
        if is_filter(rp@) {
            assert(rp@.take(1)[0] == rp@[0]);
            assert(rp@.skip(n - 1)[0] == rp@[n - 1]);
        }
    }
    if !filter {
        return None;
    }
    match parse_string_object(rp_string.as_str()) {
        Err(e) => Some(Err(PermissionError::RepositoryClassifierParseError(e))),
        Ok(fields) => match filter_from_fields(&fields) {
            Err(e) => Some(Err(e)),
            Ok(value) => if filter_allows(&value, repo) {
                Some(Ok(true))
            } else {
                None
            },
        },
    }
}

/// Whether a pattern list allows a repository. An empty list allows every
/// repository; otherwise the first pattern that matches allows, a pattern
/// before it that cannot be evaluated is an error, and a list in which none
/// matches denies.
pub fn can(repo: &RepositoryConfig, perms: &RepositoryPermission) -> (r: Result<bool, PermissionError>)
    ensures
        reports(r, can_verdict(perms.patterns(), *repo)),
{
    if perms.permissions.len() == 0 {
        return Ok(true);
    }
    let ghost ps = perms.patterns();
    let mut i: usize = 0;
    while i < perms.permissions.len()
        invariant
            i <= perms.permissions@.len(),
            ps == perms.patterns(),
            ps.len() > 0,
            can_verdict(ps, *repo) == verdict_from(ps, *repo, i as int),
        decreases perms.permissions@.len() - i,
    {
        match pattern_check(&perms.permissions[i], repo) {
            Some(r) => {
                return r;
            },
            None => {},
        }
        i = i + 1;
    }
    Ok(false)
}

/// What a user's permissions decide about deploying to a repository: what
/// the deployer list decides, for a user who is neither disabled nor admin.
pub open spec fn deploy_verdict(u: UserPermissions, repo: RepositoryConfig) -> Verdict {
    if u.disabled {
        Verdict::Deny
    } else if u.admin {
        Verdict::Allow
    } else {
        can_verdict(u.deployer.patterns(), repo)
    }
}

/// What a user's permissions decide about reading from a repository: public
/// and hidden repositories are open, a private one needs a matching viewer
/// pattern or the right to deploy.
pub open spec fn read_verdict(u: UserPermissions, repo: RepositoryConfig) -> Verdict {
    if u.disabled {
        Verdict::Deny
    } else if u.admin {
        Verdict::Allow
    } else {
        match repo.visibility {
            Visibility::Private => {
                let v = can_verdict(u.viewer.patterns(), repo);
                if v == Verdict::Allow {
                    Verdict::Allow
                } else if v == Verdict::Deny {
                    deploy_verdict(u, repo)
                } else {
                    v
                }
            },
            _ => Verdict::Allow,
        }
    }
}

/// Whether the user may deploy to the repository.
pub fn can_deploy(user_perms: &UserPermissions, repo: &RepositoryConfig) -> (r: Result<
    bool,
    PermissionError,
>)
    ensures
        reports(r, deploy_verdict(*user_perms, *repo)),
{
    if user_perms.disabled {
        return Ok(false);
    }
    if user_perms.admin {
        return Ok(true);
    }
    can(repo, &user_perms.deployer)
}

/// Whether the user may read from the repository.
pub fn can_read(user_perms: &UserPermissions, repo: &RepositoryConfig) -> (r: Result<
    bool,
    PermissionError,
>)
    ensures
        reports(r, read_verdict(*user_perms, *repo)),
{
    if user_perms.disabled {
        return Ok(false);
    }
    if user_perms.admin {
        return Ok(true);
    }
    match repo.visibility {
        Visibility::Public => Ok(true),
        Visibility::Private => {
            match can(repo, &user_perms.viewer) {
                Ok(true) => Ok(true),
                Ok(false) => can_deploy(user_perms, repo),
                Err(e) => Err(e),
            }
        },
        Visibility::Hidden => Ok(true),
    }
}

/// An empty pattern list allows every repository, whatever its storage or name.
pub proof fn lemma_empty_list_allows_all(perms: RepositoryPermission, repo: RepositoryConfig)
    requires
        perms.permissions@.len() == 0,
    ensures
        can_verdict(perms.patterns(), repo) == Verdict::Allow,
{
}

/// Every user who is not disabled may read a public or a hidden repository.
pub proof fn lemma_open_repositories_readable(u: UserPermissions, repo: RepositoryConfig)
    requires
        !u.disabled,
        repo.visibility != Visibility::Private,
    ensures
        read_verdict(u, repo) == Verdict::Allow,
{
}

/// A private repository is readable exactly by a user who is not disabled and
/// either has a viewer list that allows it (an empty one allows all) or may
/// deploy to it (an admin may deploy everywhere); a viewer pattern that
/// cannot be evaluated is an error, not a grant.
pub proof fn lemma_private_read_needs_grant(u: UserPermissions, repo: RepositoryConfig)
    requires
        repo.visibility == Visibility::Private,
    ensures
        read_verdict(u, repo) == Verdict::Allow <==> !u.disabled && (can_verdict(
            u.viewer.patterns(),
            repo,
        ) == Verdict::Allow || (deploy_verdict(u, repo) == Verdict::Allow && (u.admin
            || can_verdict(u.viewer.patterns(), repo) == Verdict::Deny))),
{
}

/// A permission that a user lacks, by name.
#[derive(Debug)]
pub struct MissingPermission(pub String);

impl MissingPermission {
    /// The message `Missing Permission `<name>``.
    pub fn named(name: &str) -> (r: MissingPermission)
        ensures
            r.0@ == seq!['M', 'i', 's', 's', 'i', 'n', 'g', ' ', 'P', 'e', 'r', 'm', 'i', 's', 's',
                'i', 'o', 'n', ' ', '`'] + name@ + seq!['`'],
    {
        let mut m = String::from_str("Missing Permission `");
        m.append(name);
        m.append("`");
        proof {
            reveal_strlit("Missing Permission `");
            reveal_strlit("`");
        }
        assert(m@ =~= seq!['M', 'i', 's', 's', 'i', 'n', 'g', ' ', 'P', 'e', 'r', 'm', 'i', 's',
            's', 'i', 'o', 'n', ' ', '`'] + name@ + seq!['`']);
        MissingPermission(m)
    }
}

/// Checks of what the holder of some permissions may do.
pub trait CanIDo {
    /// The permissions that the checks read; `None` for nobody logged in.
    spec fn held(&self) -> Option<UserPermissions>;

    /// Passes for an admin or a repository manager.
    fn can_i_edit_repos(&self) -> (r: Result<(), MissingPermission>)
        ensures
            r is Ok <==> (self.held() matches Some(p) && (p.admin || p.repository_manager)),
    ;

    /// Passes for an admin or a user manager.
    fn can_i_edit_users(&self) -> (r: Result<(), MissingPermission>)
        ensures
            r is Ok <==> (self.held() matches Some(p) && (p.admin || p.user_manager)),
    ;

    /// Passes for an admin.
    fn can_i_admin(&self) -> (r: Result<(), MissingPermission>)
        ensures
            r is Ok <==> (self.held() matches Some(p) && p.admin),
    ;

    /// `None` where deploying to the repository is allowed, else what is missing.
    fn can_deploy_to(&self, repo: &RepositoryConfig) -> (r: Result<
        Option<MissingPermission>,
        PermissionError,
    >)
        ensures
            match self.held() {
                None => r matches Ok(Some(_)),
                Some(p) => match deploy_verdict(p, *repo) {
                    Verdict::Allow => r matches Ok(None),
                    Verdict::Deny => r matches Ok(Some(_)),
                    v => r matches Err(e) && reports(Err::<bool, PermissionError>(e), v),
                },
            },
    ;

    /// `None` where reading from the repository is allowed, else what is
    /// missing. Public and hidden repositories are open to everyone logged
    /// in who is not disabled.
    fn can_read_from(&self, repo: &RepositoryConfig) -> (r: Result<
        Option<MissingPermission>,
        PermissionError,
    >)
        ensures
            match self.held() {
                None => r matches Ok(Some(_)),
                Some(p) => match read_verdict(p, *repo) {
                    Verdict::Allow => r matches Ok(None),
                    Verdict::Deny => r matches Ok(Some(_)),
                    v => r matches Err(e) && reports(Err::<bool, PermissionError>(e), v),
                },
            },
    ;
}

/// A user account as the permission checks see it.
#[derive(Clone, Debug)]
pub struct UserModel {
    pub id: i64,
    pub username: String,
    pub permissions: UserPermissions,
}

impl CanIDo for UserModel {
    open spec fn held(&self) -> Option<UserPermissions> {
        Some(self.permissions)
    }

    fn can_i_edit_repos(&self) -> (r: Result<(), MissingPermission>) {
        if !self.permissions.admin && !self.permissions.repository_manager {
            return Err(MissingPermission::named("repository_manager"));
        }
        Ok(())
    }

    fn can_i_edit_users(&self) -> (r: Result<(), MissingPermission>) {
        if !self.permissions.admin && !self.permissions.user_manager {
            return Err(MissingPermission::named("user_manager"));
        }
        Ok(())
    }

    fn can_i_admin(&self) -> (r: Result<(), MissingPermission>) {
        if !self.permissions.admin {
            return Err(MissingPermission::named("admin"));
        }
        Ok(())
    }

    fn can_deploy_to(&self, repo: &RepositoryConfig) -> (r: Result<
        Option<MissingPermission>,
        PermissionError,
    >) {
        match can_deploy(&self.permissions, repo) {
            Ok(true) => Ok(None),
            Ok(false) => Ok(Some(MissingPermission(String::from_str("Write Repository")))),
            Err(e) => Err(e),
        }
    }

    fn can_read_from(&self, repo: &RepositoryConfig) -> (r: Result<
        Option<MissingPermission>,
        PermissionError,
    >) {
        match can_read(&self.permissions, repo) {
            Ok(true) => Ok(None),
            Ok(false) => Ok(Some(MissingPermission(String::from_str("Read Repository")))),
            Err(e) => Err(e),
        }
    }
}

impl CanIDo for Option<UserModel> {
    open spec fn held(&self) -> Option<UserPermissions> {
        match self {
            Some(u) => Some(u.permissions),
            None => None,
        }
    }

    fn can_i_edit_repos(&self) -> (r: Result<(), MissingPermission>) {
        match self {
            Some(u) => u.can_i_edit_repos(),
            None => Err(MissingPermission(String::from_str("can_i_edit_repos"))),
        }
    }

    fn can_i_edit_users(&self) -> (r: Result<(), MissingPermission>) {
        match self {
            Some(u) => u.can_i_edit_users(),
            None => Err(MissingPermission(String::from_str("edit_users"))),
        }
    }

    fn can_i_admin(&self) -> (r: Result<(), MissingPermission>) {
        match self {
            Some(u) => u.can_i_admin(),
            None => Err(MissingPermission(String::from_str("admin"))),
        }
    }

    fn can_deploy_to(&self, repo: &RepositoryConfig) -> (r: Result<
        Option<MissingPermission>,
        PermissionError,
    >) {
        match self {
            Some(u) => u.can_deploy_to(repo),
            None => Ok(Some(MissingPermission(String::from_str("Logged In")))),
        }
    }

    fn can_read_from(&self, repo: &RepositoryConfig) -> (r: Result<
        Option<MissingPermission>,
        PermissionError,
    >) {
        match self {
            Some(u) => u.can_read_from(repo),
            None => Ok(Some(MissingPermission(String::from_str("Logged In")))),
        }
    }
}

} // verus!
