//! The local repository facts a PR fetch is derived from: which forge the remote names, the
//! canonical repository target, and the branch's publication points. Reading them from Git is
//! the application's work; the library decides over the values.

use vstd::prelude::*;

use crate::text::{owned, str_eq};

verus! {

/// A supported hosted forge.
#[derive(Clone, Copy, Debug, PartialEq, Eq, Structural)]
pub enum Forge {
    GitHub,
    GitLab,
    Bitbucket,
}

impl Forge {
    /// The forge's display name.
    pub open spec fn name_spec(self) -> Seq<char> {
        match self {
            Forge::GitHub => "GitHub"@,
            Forge::GitLab => "GitLab"@,
            Forge::Bitbucket => "Bitbucket"@,
        }
    }

    /// The command-line tool the forge is read through.
    pub open spec fn cli_spec(self) -> Seq<char> {
        match self {
            Forge::GitHub => "gh"@,
            Forge::GitLab => "glab"@,
            Forge::Bitbucket => "curl"@,
        }
    }

    /// The forge's display name (`GitHub`, `GitLab`, `Bitbucket`).
    pub fn name(self) -> (s: &'static str)
        ensures
            s@ == self.name_spec(),
    {
        match self {
            Forge::GitHub => "GitHub",
            Forge::GitLab => "GitLab",
            Forge::Bitbucket => "Bitbucket",
        }
    }

    /// The tool binary (`gh`, `glab`, `curl`).
    pub fn cli(self) -> (s: &'static str)
        ensures
            s@ == self.cli_spec(),
    {
        match self {
            Forge::GitHub => "gh",
            Forge::GitLab => "glab",
            Forge::Bitbucket => "curl",
        }
    }
}

/// One canonical forge repository: the forge, its host, and the owner/name path.
#[derive(Clone, Debug, PartialEq, Eq)]
pub struct RepoTarget {
    pub forge: Forge,
    pub host: String,
    pub owner: String,
    pub name: String,
}

/// What a remote names, once classified.
#[derive(Clone, Debug, PartialEq, Eq)]
pub enum RepositoryIdentity {
    /// The remote names a supported repository.
    Repository(RepoTarget),
    /// No such remote is configured.
    Missing,
    /// The remote has no hosted Git URL.
    Hostless,
    /// The remote names a host outside the supported forges.
    Unsupported(String),
    /// The remote names a supported host but no owner/repository path.
    Malformed(String),
}

/// One published tip of the branch: its object id and the remote branch names at it.
#[derive(Clone, Debug, PartialEq, Eq)]
pub struct PublicationPoint {
    pub oid: String,
    pub names: Vec<String>,
}

/// The branch state one PR fetch is pinned to.
#[derive(Clone, Debug, PartialEq, Eq)]
pub struct PrLocalState {
    pub head_oid: Option<String>,
    pub base_oid: Option<String>,
    pub points: Vec<PublicationPoint>,
    pub absorbed: Vec<PublicationPoint>,
    /// Whether the pinned `HEAD` may itself nominate a PR by exact head identity.
    pub head_nominates: bool,
    /// The recorded upstream branch name.
    pub upstream: Option<String>,
    pub detached: bool,
}

/// Every local value that identifies one PR fetch: the target repository, the origin
/// repository where published commits live, and the branch state.
#[derive(Clone, Debug, PartialEq, Eq)]
pub struct PrFetchInput {
    pub repository: RepositoryIdentity,
    pub origin_repository: Option<RepoTarget>,
    pub local: PrLocalState,
}


/// Two repository targets name the same repository.
pub open spec fn same_target(a: RepoTarget, b: RepoTarget) -> bool {
    a.forge == b.forge && a.host@ == b.host@ && a.owner@ == b.owner@ && a.name@ == b.name@
}

/// Two classified remotes are the same.
pub open spec fn same_identity(a: RepositoryIdentity, b: RepositoryIdentity) -> bool {
    match (a, b) {
        (RepositoryIdentity::Repository(x), RepositoryIdentity::Repository(y)) => same_target(x, y),
        (RepositoryIdentity::Missing, RepositoryIdentity::Missing) => true,
        (RepositoryIdentity::Hostless, RepositoryIdentity::Hostless) => true,
        (RepositoryIdentity::Unsupported(x), RepositoryIdentity::Unsupported(y)) => x@ == y@,
        (RepositoryIdentity::Malformed(x), RepositoryIdentity::Malformed(y)) => x@ == y@,
        _ => false,
    }
}

impl RepoTarget {
    /// Whether `self` and `other` name the same repository.
    pub fn same(&self, other: &RepoTarget) -> (r: bool)
        ensures
            r == same_target(*self, *other),
    {
        self.forge == other.forge && str_eq(self.host.as_str(), other.host.as_str()) && str_eq(
            self.owner.as_str(),
            other.owner.as_str(),
        ) && str_eq(self.name.as_str(), other.name.as_str())
    }

    /// A copy naming the same repository.
    pub fn duplicate(&self) -> (r: RepoTarget)
        ensures
            same_target(r, *self),
    {
        RepoTarget {
            forge: self.forge,
            host: owned(self.host.as_str()),
            owner: owned(self.owner.as_str()),
            name: owned(self.name.as_str()),
        }
    }
}

impl RepositoryIdentity {
    /// Whether two classified remotes are the same.
    pub fn same(&self, other: &RepositoryIdentity) -> (r: bool)
        ensures
            r == same_identity(*self, *other),
    {
        match (self, other) {
            (RepositoryIdentity::Repository(x), RepositoryIdentity::Repository(y)) => x.same(y),
            (RepositoryIdentity::Missing, RepositoryIdentity::Missing) => true,
            (RepositoryIdentity::Hostless, RepositoryIdentity::Hostless) => true,
            (RepositoryIdentity::Unsupported(x), RepositoryIdentity::Unsupported(y)) => str_eq(
                x.as_str(),
                y.as_str(),
            ),
            (RepositoryIdentity::Malformed(x), RepositoryIdentity::Malformed(y)) => str_eq(
                x.as_str(),
                y.as_str(),
            ),
            _ => false,
        }
    }

    /// A copy of the classification.
    pub fn duplicate(&self) -> (r: RepositoryIdentity)
        ensures
            same_identity(r, *self),
    {
        match self {
            RepositoryIdentity::Repository(x) => RepositoryIdentity::Repository(x.duplicate()),
            RepositoryIdentity::Missing => RepositoryIdentity::Missing,
            RepositoryIdentity::Hostless => RepositoryIdentity::Hostless,
            RepositoryIdentity::Unsupported(x) => RepositoryIdentity::Unsupported(owned(x.as_str())),
            RepositoryIdentity::Malformed(x) => RepositoryIdentity::Malformed(owned(x.as_str())),
        }
    }
}
} // verus!
