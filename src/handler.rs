//! Repository handlers: one variant per repository type, each holding its
//! repository's configuration and the name of the storage that holds it.
//! Every request passes the permission checks before its protocol step.

use vstd::prelude::*;
use vstd::string::*;

use crate::external::names_couch_user;
use crate::npm::{
    get_action_is, npm_get_action, npm_put_step, opt_request, opt_str, put_step_is,
    user_name_of, user_verification_name, NpmGetAction, NpmPutStep, PublishRequest,
};
use crate::permissions::{
    deploy_verdict, read_verdict, CanIDo, MissingPermission, PermissionError, UserModel, Verdict,
};
use crate::repository::{RepositoryConfig, RepositoryType};

verus! {

/// A handler for a CI repository.
#[derive(Debug)]
pub struct CIHandler {
    pub config: RepositoryConfig,
    pub storage: String,
}

/// A handler for an NPM repository.
#[derive(Debug)]
pub struct NPMHandler {
    pub config: RepositoryConfig,
    pub storage: String,
}

/// A handler for a Maven repository.
#[derive(Debug)]
pub struct MavenHandler {
    pub config: RepositoryConfig,
    pub storage: String,
}

/// A handler for a generic repository.
#[derive(Debug)]
pub struct GenericHandler {
    pub config: RepositoryConfig,
    pub storage: String,
}

/// The handler of a repository, chosen by its type.
#[derive(Debug)]
pub enum DynamicRepositoryHandler {
    Maven(MavenHandler),
    NPM(NPMHandler),
    CI(CIHandler),
    Generic(GenericHandler),
}

/// Why a repository request was refused.
#[derive(Debug)]
pub enum RepositoryError {
    /// The caller lacks a permission; the message says which.
    Unauthorized(MissingPermission),
    /// A permission pattern could not be evaluated.
    Permission(PermissionError),
}

impl CIHandler {
    /// A CI handler for a repository held by the storage named `storage`.
    pub fn create(config: RepositoryConfig, storage: String) -> (r: CIHandler)
        ensures
            r.config == config,
            r.storage == storage,
    {
        CIHandler { config, storage }
    }
}

impl NPMHandler {
    /// An NPM handler for a repository held by the storage named `storage`.
    pub fn create(config: RepositoryConfig, storage: String) -> (r: NPMHandler)
        ensures
            r.config == config,
            r.storage == storage,
    {
        NPMHandler { config, storage }
    }

    /// A GET request: the caller must be allowed to read, then the path and
    /// the `npm-command` header say what is asked for.
    pub fn handle_get(&self, caller: &Option<UserModel>, has_npm_command: bool, path: &str) -> (r:
        Result<NpmGetAction, RepositoryError>)
        ensures
            match caller.held() {
                None => r matches Err(RepositoryError::Unauthorized(_)),
                Some(p) => match read_verdict(p, self.config) {
                    Verdict::Allow => r matches Ok(a) && get_action_is(has_npm_command, path@, a),
                    Verdict::Deny => r matches Err(RepositoryError::Unauthorized(_)),
                    _ => r matches Err(RepositoryError::Permission(_)),
                },
            },
    {
        match caller.can_read_from(&self.config) {
            Err(e) => Err(RepositoryError::Permission(e)),
            Ok(Some(m)) => Err(RepositoryError::Unauthorized(m)),
            Ok(None) => Ok(npm_get_action(has_npm_command, path)),
        }
    }

    /// A PUT request. A user verification path is a login and needs no
    /// permission; any other request needs the right to deploy, and then its
    /// `npm-command` and its body, read as a publish request, say what it
    /// leads to.
    pub fn handle_put(
        &self,
        caller: &Option<UserModel>,
        path: &str,
        npm_command: Option<&str>,
        body: Option<&PublishRequest>,
    ) -> (r: Result<NpmPutStep, RepositoryError>)
        ensures
            names_couch_user(path@) ==> (r matches Ok(NpmPutStep::VerifyUser(u)) && u@
                == user_name_of(path@)),
            !names_couch_user(path@) ==> match caller.held() {
                None => r matches Err(RepositoryError::Unauthorized(_)),
                Some(p) => match deploy_verdict(p, self.config) {
                    Verdict::Allow => r matches Ok(step) && put_step_is(
                        opt_str(npm_command),
                        opt_request(body),
                        step,
                    ),
                    Verdict::Deny => r matches Err(RepositoryError::Unauthorized(_)),
                    _ => r matches Err(RepositoryError::Permission(_)),
                },
            },
    {
        match user_verification_name(path) {
            Some(name) => {
                return Ok(NpmPutStep::VerifyUser(name));
            },
            None => {},
        }
        match caller.can_deploy_to(&self.config) {
            Err(e) => Err(RepositoryError::Permission(e)),
            Ok(Some(m)) => Err(RepositoryError::Unauthorized(m)),
            Ok(None) => Ok(npm_put_step(npm_command, body)),
        }
    }
}

impl DynamicRepositoryHandler {
    /// The handler of the variant that the repository's type calls for.
    pub fn new(config: RepositoryConfig, storage: String) -> (r: DynamicRepositoryHandler)
        ensures
            r.config() == config,
            match config.repository_type {
                RepositoryType::Maven => r is Maven,
                RepositoryType::NPM => r is NPM,
                RepositoryType::CI => r is CI,
                RepositoryType::Generic => r is Generic,
            },
    {
        match config.repository_type {
            RepositoryType::Maven => DynamicRepositoryHandler::Maven(MavenHandler { config, storage }),
            RepositoryType::NPM => DynamicRepositoryHandler::NPM(NPMHandler::create(config, storage)),
            RepositoryType::CI => DynamicRepositoryHandler::CI(CIHandler::create(config, storage)),
            RepositoryType::Generic => DynamicRepositoryHandler::Generic(
                GenericHandler { config, storage },
            ),
        }
    }

    pub open spec fn config(&self) -> RepositoryConfig {
        match self {
            DynamicRepositoryHandler::Maven(h) => h.config,
            DynamicRepositoryHandler::NPM(h) => h.config,
            DynamicRepositoryHandler::CI(h) => h.config,
            DynamicRepositoryHandler::Generic(h) => h.config,
        }
    }

    /// The repository's configuration.
    pub fn get_repository(&self) -> (r: &RepositoryConfig)
        ensures
            *r == self.config(),
    {
        match self {
            DynamicRepositoryHandler::Maven(h) => &h.config,
            DynamicRepositoryHandler::NPM(h) => &h.config,
            DynamicRepositoryHandler::CI(h) => &h.config,
            DynamicRepositoryHandler::Generic(h) => &h.config,
        }
    }
}

} // verus!
