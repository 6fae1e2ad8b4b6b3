//! Platforms a command may be restricted to, and the predicate deciding
//! whether a command is visible on the platform the tool runs on.

use vstd::prelude::*;

verus! {

/// A platform the tool can run on.
#[derive(Clone, Copy, PartialEq, Eq, Structural, Debug)]
pub enum Platform {
    Linux,
    MacOS,
    Windows,
}

/// Restriction to exactly one platform.
#[derive(Clone, Copy, PartialEq, Eq, Structural, Debug)]
pub struct OnePlatform {
    pub platform: Platform,
}

/// Restriction to a set of platforms, given as a list.
#[derive(Debug)]
pub struct ManyPlatforms {
    pub platforms: Vec<Platform>,
}

/// A command's platform predicate: one platform, or any of a list.
#[derive(Debug)]
pub enum OneOrManyPlatforms {
    One(OnePlatform),
    Many(ManyPlatforms),
}

/// Mathematical model of a platform predicate.
pub enum SpecPlatformFilter {
    One(Platform),
    Many(Seq<Platform>),
}

impl View for OneOrManyPlatforms {
    type V = SpecPlatformFilter;

    open spec fn view(&self) -> SpecPlatformFilter {
        match self {
            OneOrManyPlatforms::One(one) => SpecPlatformFilter::One(one.platform),
            OneOrManyPlatforms::Many(many) => SpecPlatformFilter::Many(many.platforms@),
        }
    }
}

/// Whether a platform predicate admits the given platform.
pub open spec fn spec_platform_matches(filter: SpecPlatformFilter, current: Platform) -> bool {
    match filter {
        SpecPlatformFilter::One(p) => p == current,
        SpecPlatformFilter::Many(ps) => ps.contains(current),
    }
}

/// Decides whether the given predicate admits the currently running
/// platform, which the caller has already queried.
pub fn is_current_platform(current_platform: Platform, platforms: &OneOrManyPlatforms) -> (r: bool)
    ensures
        r == spec_platform_matches(platforms@, current_platform),
{
    match platforms {
        OneOrManyPlatforms::One(one) => one.platform == current_platform,
        OneOrManyPlatforms::Many(many) => {
            let n = many.platforms.len();
            let mut i: usize = 0;
            while i < n
                invariant
                    platforms@ == SpecPlatformFilter::Many(many.platforms@),
                    n == many.platforms@.len(),
                    0 <= i <= n,
                    forall|j: int| 0 <= j < i ==> many.platforms@[j] != current_platform,
                decreases n - i,
            {
                if many.platforms[i] == current_platform {
                    proof {
                        let ps = many.platforms@;
                        let j: int = i as int;
                        assert(0 <= j < ps.len() && ps[j] == current_platform);
                        assert(ps.contains(current_platform));
                    }
                    return true;
                }
                i = i + 1;
            }
            false
        },
    }
}

} // verus!
