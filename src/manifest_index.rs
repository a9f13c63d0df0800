//! Manifest indexes: one manifest per platform, and the choice of a
//! manifest for a platform.
use vstd::prelude::*;

use crate::image_config::strs;
use crate::manifest::Descriptor;

verus! {

/// The platform a manifest of an index is built for.
pub struct Platform {
    pub architecture: String,
    pub os: String,
    pub os_version: Option<String>,
    pub os_features: Option<Vec<String>>,
    pub variant: Option<String>,
}

/// One entry of a manifest index.
pub struct Manifest {
    pub descriptor: Descriptor,
    pub platform: Option<Platform>,
}

/// A manifest index: one manifest per platform.
pub struct ManifestIndex {
    pub schema_version: u32,
    pub manifests: Vec<Manifest>,
    pub annotations: Option<Vec<(String, String)>>,
}

/// The entry is built for architecture `arch` and one of the systems `os`.
pub open spec fn entry_matches(e: Manifest, arch: Seq<char>, os: Seq<Seq<char>>) -> bool {
    e.platform matches Some(p) && p.architecture@ == arch && os.contains(p.os@)
}

/// Index of the first entry from `i` on that matches, if any.
pub open spec fn first_match_from(
    es: Seq<Manifest>,
    arch: Seq<char>,
    os: Seq<Seq<char>>,
    i: int,
) -> Option<int>
    decreases es.len() - i,
{
    if i < 0 || i >= es.len() {
        None
    } else if entry_matches(es[i], arch, os) {
        Some(i)
    } else {
        first_match_from(es, arch, os, i + 1)
    }
}

/// Why no manifest could be chosen.
#[derive(Debug, PartialEq, Eq, Clone, Copy, Structural)]
pub enum PlatformError {
    NoMatchingPlatform,
}

fn contains_str(v: &Vec<String>, s: &String) -> (r: bool)
    ensures
        r == strs(v@).contains(s@),
{
    let mut i: usize = 0;
    while i < v.len()
        invariant
            i <= v@.len(),
            forall|j: int| 0 <= j < i ==> v@[j]@ != s@,
        decreases v@.len() - i,
    {
        if v[i] == *s {
            assert(strs(v@)[i as int] == s@);
            return true;
        }
        i = i + 1;
    }
    assert forall|j: int| 0 <= j < strs(v@).len() implies strs(v@)[j] != s@ by {
        assert(strs(v@)[j] == v@[j]@);
    }
    false
}

impl ManifestIndex {
    /// The digest of the first manifest built for `architecture` and one of
    /// the systems `os`, in index order.
    pub fn resolve_manifest_digest(&self, architecture: &String, os: &Vec<String>) -> (r: Result<
        String,
        PlatformError,
    >)
        ensures
            match first_match_from(self.manifests@, architecture@, strs(os@), 0) {
                Some(i) => r matches Ok(d) && d@ == self.manifests@[i].descriptor.digest@,
                None => r == Err::<String, PlatformError>(PlatformError::NoMatchingPlatform),
            },
    {
        let mut i: usize = 0;
        while i < self.manifests.len()
            invariant
                i <= self.manifests@.len(),
                first_match_from(self.manifests@, architecture@, strs(os@), 0) == first_match_from(
                    self.manifests@,
                    architecture@,
                    strs(os@),
                    i as int,
                ),
            decreases self.manifests@.len() - i,
        {
            let e = &self.manifests[i];
            match &e.platform {
                Some(p) => {
                    if p.architecture == *architecture && contains_str(os, &p.os) {
                        return Ok(e.descriptor.digest.clone());
                    }
                },
                None => {},
            }
            i = i + 1;
        }
        Err(PlatformError::NoMatchingPlatform)
    }
}

} // verus!
