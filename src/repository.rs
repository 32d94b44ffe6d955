//! Repository configuration: where a repository lives, what protocol it
//! speaks, who may see it and what it accepts.

use vstd::prelude::*;
use vstd::string::*;

use crate::text::{chars_eq, chars_of};

verus! {

/// The read-access class of a repository.
#[derive(Clone, Copy, Debug, PartialEq, Eq, Structural)]
pub enum Visibility {
    Public,
    Private,
    Hidden,
}

/// What versions a repository accepts.
#[derive(Clone, Copy, Debug, PartialEq, Eq, Structural)]
pub enum Policy {
    Release,
    Snapshot,
    Mixed,
}

/// The package ecosystem that a repository serves.
#[derive(Clone, Copy, Debug, PartialEq, Eq, Structural)]
pub enum RepositoryType {
    Maven,
    NPM,
    CI,
    Generic,
}

/// A repository's configuration. `storage` is the name of the storage that holds it.
#[derive(Debug)]
pub struct RepositoryConfig {
    pub name: String,
    pub storage: String,
    pub repository_type: RepositoryType,
    pub visibility: Visibility,
    pub policy: Policy,
    pub active: bool,
}

impl Clone for RepositoryConfig {
    fn clone(&self) -> (r: Self)
        ensures
            r == *self,
    {
        RepositoryConfig {
            name: self.name.clone(),
            storage: self.storage.clone(),
            repository_type: self.repository_type,
            visibility: self.visibility,
            policy: self.policy,
            active: self.active,
        }
    }
}

/// The textual name of a policy.
pub open spec fn policy_name(p: Policy) -> Seq<char> {
    match p {
        Policy::Release => seq!['r', 'e', 'l', 'e', 'a', 's', 'e'],
        Policy::Snapshot => seq!['s', 'n', 'a', 'p', 's', 'h', 'o', 't'],
        Policy::Mixed => seq!['m', 'i', 'x', 'e', 'd'],
    }
}

/// The textual name of a repository type.
pub open spec fn repository_type_name(t: RepositoryType) -> Seq<char> {
    match t {
        RepositoryType::Maven => seq!['m', 'a', 'v', 'e', 'n'],
        RepositoryType::NPM => seq!['n', 'p', 'm'],
        RepositoryType::CI => seq!['c', 'i'],
        RepositoryType::Generic => seq!['g', 'e', 'n', 'e', 'r', 'i', 'c'],
    }
}

/// The policy whose name is `s`, if any.
pub open spec fn policy_named(s: Seq<char>) -> Option<Policy> {
    if s == policy_name(Policy::Release) {
        Some(Policy::Release)
    } else if s == policy_name(Policy::Snapshot) {
        Some(Policy::Snapshot)
    } else if s == policy_name(Policy::Mixed) {
        Some(Policy::Mixed)
    } else {
        None
    }
}

impl Policy {
    /// The characters of this policy's name.
    pub fn name_chars(&self) -> (r: Vec<char>)
        ensures
            r@ == policy_name(*self),
    {
        match self {
            Policy::Release => {
                let r = chars_of("release");
                proof {
                    reveal_strlit("release");
                }
                assert(r@ =~= policy_name(*self));
                r
            },
            Policy::Snapshot => {
                let r = chars_of("snapshot");
                proof {
                    reveal_strlit("snapshot");
                }
                assert(r@ =~= policy_name(*self));
                r
            },
            Policy::Mixed => {
                let r = chars_of("mixed");
                proof {
                    reveal_strlit("mixed");
                }
                assert(r@ =~= policy_name(*self));
                r
            },
        }
    }

    /// The policy named `s`: `release`, `snapshot` or `mixed`.
    pub fn from_name(s: &Vec<char>) -> (r: Option<Policy>)
        ensures
            r == policy_named(s@),
    {
        if chars_eq(s, &Policy::Release.name_chars()) {
            Some(Policy::Release)
        } else if chars_eq(s, &Policy::Snapshot.name_chars()) {
            Some(Policy::Snapshot)
        } else if chars_eq(s, &Policy::Mixed.name_chars()) {
            Some(Policy::Mixed)
        } else {
            None
        }
    }
}

impl RepositoryType {
    /// The characters of this type's name.
    pub fn name_chars(&self) -> (r: Vec<char>)
        ensures
            r@ == repository_type_name(*self),
    {
        match self {
            RepositoryType::Maven => {
                let r = chars_of("maven");
                proof {
                    reveal_strlit("maven");
                }
                assert(r@ =~= repository_type_name(*self));
                r
            },
            RepositoryType::NPM => {
                let r = chars_of("npm");
                proof {
                    reveal_strlit("npm");
                }
                assert(r@ =~= repository_type_name(*self));
                r
            },
            RepositoryType::CI => {
                let r = chars_of("ci");
                proof {
                    reveal_strlit("ci");
                }
                assert(r@ =~= repository_type_name(*self));
                r
            },
            RepositoryType::Generic => {
                let r = chars_of("generic");
                proof {
                    reveal_strlit("generic");
                }
                assert(r@ =~= repository_type_name(*self));
                r
            },
        }
    }
}

/// How a repository's page is written.
#[derive(Clone, Copy, Debug, PartialEq, Eq, Structural)]
pub enum PageType {
    NoPage,
    Markdown,
}

impl Default for PageType {
    /// No page.
    fn default() -> (r: Self)
        ensures
            r == PageType::NoPage,
    {
        PageType::NoPage
    }
}

/// A repository's page settings, stored as `page.json`.
#[derive(Clone, Copy, Debug)]
pub struct RepositoryPage {
    pub page_type: PageType,
}

/// A new page for a repository: its settings and its text.
#[derive(Debug)]
pub struct UpdateRepositoryPage {
    pub settings: RepositoryPage,
    pub page: Option<String>,
}

} // verus!
