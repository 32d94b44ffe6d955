//! The shapes of the administration API's requests and responses.

use vstd::prelude::*;

use crate::permissions::UserModel;
use crate::repository::{PageType, RepositoryConfig};

verus! {

/// Whether a repository lookup includes the repository's other configs.
#[derive(Clone, Copy, Debug, Default)]
pub struct GetRepositoryQuery {
    pub all_info: bool,
}

/// Whether deleting a repository removes its data too.
#[derive(Clone, Copy, Debug, Default)]
pub struct DeleteRepositoryQuery {
    pub purge_repository: bool,
}

/// A login request.
#[derive(Debug)]
pub struct Login {
    pub username: String,
    pub password: String,
}

/// A request to create a repository: its name, its storage, its type by name,
/// and how its page is written.
#[derive(Debug)]
pub struct NewRepo {
    pub name: String,
    pub storage: String,
    pub repo: String,
    pub page_type: PageType,
}

/// A list of repositories.
#[derive(Debug)]
pub struct ListRepositories {
    pub repositories: Vec<RepositoryConfig>,
}

/// A list of users.
#[derive(Debug)]
pub struct ListUsers {
    pub users: Vec<UserModel>,
}

} // verus!
