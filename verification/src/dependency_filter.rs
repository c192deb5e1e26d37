//! Which kinds of dependency an analysis includes.

use vstd::prelude::*;

use crate::analyzer::Dependency;
use crate::common::CommonArgs;

verus! {

/// Which dependency kinds to leave out of an analysis.
#[derive(Debug, Clone, Copy)]
pub struct DependencyFilter {
    exclude_dev: bool,
    exclude_build: bool,
    exclude_target: bool,
}

impl DependencyFilter {
    /// Whether dev dependencies are left out.
    pub closed spec fn excludes_dev(&self) -> bool {
        self.exclude_dev
    }

    /// Whether build dependencies are left out.
    pub closed spec fn excludes_build(&self) -> bool {
        self.exclude_build
    }

    /// Whether target-specific dependencies are left out.
    pub closed spec fn excludes_target(&self) -> bool {
        self.exclude_target
    }

    /// The filter with the given exclusions.
    pub closed spec fn filter_of(exclude_dev: bool, exclude_build: bool, exclude_target: bool) -> DependencyFilter {
        DependencyFilter { exclude_dev, exclude_build, exclude_target }
    }

    /// A filter is determined by its three exclusions.
    pub proof fn lemma_filter_of(f: DependencyFilter)
        ensures
            f == Self::filter_of(f.excludes_dev(), f.excludes_build(), f.excludes_target()),
    {
    }

    pub fn new(exclude_dev: bool, exclude_build: bool, exclude_target: bool) -> (r: Self)
        ensures
            r.excludes_dev() == exclude_dev,
            r.excludes_build() == exclude_build,
            r.excludes_target() == exclude_target,
    {
        DependencyFilter { exclude_dev, exclude_build, exclude_target }
    }

    pub fn include_dev(&self) -> (r: bool)
        ensures
            r == !self.excludes_dev(),
    {
        !self.exclude_dev
    }

    pub fn include_build(&self) -> (r: bool)
        ensures
            r == !self.excludes_build(),
    {
        !self.exclude_build
    }

    pub fn include_target(&self) -> (r: bool)
        ensures
            r == !self.excludes_target(),
    {
        !self.exclude_target
    }

    /// A dependency is left out only when it is target-specific and target
    /// dependencies are excluded.
    pub fn should_include_dependency(&self, dep: &Dependency) -> (r: bool)
        ensures
            r == !(dep.target_view() is Some && self.excludes_target()),
    {
        !(dep.target().is_some() && self.exclude_target)
    }

    /// The filter of the common arguments.
    pub fn from_args(args: &CommonArgs) -> (r: Self)
        ensures
            r.excludes_dev() == args.exclude_dev,
            r.excludes_build() == args.exclude_build,
            r.excludes_target() == args.exclude_target,
    {
        Self::new(args.exclude_dev, args.exclude_build, args.exclude_target)
    }
}

impl Default for DependencyFilter {
    fn default() -> (r: Self)
        ensures
            !r.excludes_dev() && !r.excludes_build() && !r.excludes_target(),
    {
        Self::new(false, false, false)
    }
}

} // verus!
