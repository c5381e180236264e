//! Dependency declarations for Rust manifests, and where a manifest receives them.

use vstd::prelude::*;

verus! {

/// Where a dependency comes from.
#[derive(Debug, Clone, PartialEq)]
pub enum ManifestDependencyOrigin<'a> {
    CratesIO { version: &'a str },
    Git { url: &'a str, branch: &'a str },
    Local { relative_path: &'a str },
    Workspace,
}

impl<'a> ManifestDependencyOrigin<'a> {
    /// A dependency on a given version published on crates.io.
    pub fn crates_io(version: &'a str) -> (r: Self)
        ensures
            r == (ManifestDependencyOrigin::CratesIO { version }),
    {
        ManifestDependencyOrigin::CratesIO { version }
    }

    /// A dependency on a branch of a git repository.
    pub fn git(url: &'a str, branch: &'a str) -> (r: Self)
        ensures
            r == (ManifestDependencyOrigin::Git { url, branch }),
    {
        ManifestDependencyOrigin::Git { url, branch }
    }

    /// A dependency on a crate at a path relative to the manifest.
    pub fn local(relative_path: &'a str) -> (r: Self)
        ensures
            r == (ManifestDependencyOrigin::Local { relative_path }),
    {
        ManifestDependencyOrigin::Local { relative_path }
    }

    /// A dependency inherited from the workspace.
    pub fn workspace() -> (r: Self)
        ensures
            r == ManifestDependencyOrigin::Workspace,
    {
        ManifestDependencyOrigin::Workspace
    }
}

/// How a dependency is declared in a manifest.
#[derive(Debug, Clone, PartialEq)]
pub struct ManifestDependencyConfig<'a> {
    pub origin: ManifestDependencyOrigin<'a>,
    pub default_features: bool,
    pub features: Vec<&'a str>,
    pub optional: bool,
}

impl<'a> ManifestDependencyConfig<'a> {
    /// A declaration with the given origin, use of default features, features and optionality.
    pub fn new(
        origin: ManifestDependencyOrigin<'a>,
        default_features: bool,
        features: Vec<&'a str>,
        optional: bool,
    ) -> (r: Self)
        ensures
            r.origin == origin,
            r.default_features == default_features,
            r.features == features,
            r.optional == optional,
    {
        ManifestDependencyConfig { origin, default_features, features, optional }
    }

    /// Appends `features`, in order, to the features of the declaration.
    pub fn add_features(&mut self, features: &[&'a str])
        ensures
            final(self).features@ == old(self).features@ + features@,
            final(self).origin == old(self).origin,
            final(self).default_features == old(self).default_features,
            final(self).optional == old(self).optional,
    {
        let mut i: usize = 0;
        while i < features.len()
            invariant
                i <= features@.len(),
                self.features@ == old(self).features@ + features@.subrange(0, i as int),
                self.origin == old(self).origin,
                self.default_features == old(self).default_features,
                self.optional == old(self).optional,
            decreases features@.len() - i,
        {
            self.features.push(features[i]);
            i = i + 1;
            assert(features@.subrange(0, i as int) =~= features@.subrange(0, i - 1 as int).push(
                features@[i - 1],
            ));
        }
        assert(features@.subrange(0, features@.len() as int) =~= features@);
    }
}

/// Which manifest a search looks for.
#[derive(Debug, Clone, Copy, PartialEq, Eq, Structural)]
pub enum ManifestSearch {
    /// The manifest of the innermost crate or workspace.
    Innermost,
    /// The manifest of the workspace.
    Workspace,
}

/// What a `Cargo.toml` read as a manifest holds.
#[derive(Debug, Clone, Copy, PartialEq, Eq, Structural)]
pub struct ManifestProbe {
    pub has_package: bool,
    pub has_workspace: bool,
}

/// The manifest that `probe` describes ends the search `search`.
pub open spec fn ends_search(search: ManifestSearch, probe: Option<ManifestProbe>) -> bool {
    match probe {
        Option::None => false,
        Option::Some(p) => match search {
            ManifestSearch::Innermost => p.has_package || p.has_workspace,
            ManifestSearch::Workspace => p.has_workspace,
        },
    }
}

/// Whether the manifest that `probe` describes (`None` where the file could not be read
/// as a manifest) ends the search `search`: a readable manifest with a package or a workspace ends the search for the innermost one, and one
/// with a workspace ends the search for the workspace's.
pub fn manifest_ends_search(search: ManifestSearch, probe: Option<ManifestProbe>) -> (r: bool)
    ensures
        r == ends_search(search, probe),
{
    match probe {
        Option::None => false,
        Option::Some(p) => match search {
            ManifestSearch::Innermost => p.has_package || p.has_workspace,
            ManifestSearch::Workspace => p.has_workspace,
        },
    }
}

} // verus!
