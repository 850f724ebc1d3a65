//! Consumer-facing image resolution.
//!
//! Material systems fetch texture regions uniformly through the
//! [`ImageResolver`] capability; the atlas-backed implementation answers
//! lookups from a built atlas's region table without any loading.

use vstd::prelude::*;

verus! {

use crate::atlas::{TextureAtlas, TextureRegion, region_uv_wf};

/// What an image is used for when resolving materials.
#[derive(Debug, Clone, Copy, PartialEq, Eq, Structural)]
pub enum MaterialImageUsage {
    Diffuse,
}

/// Resolve named images into texture regions.
pub trait ImageResolver<I, S> {
    /// Receive the region registered under a key, if any.
    fn get(&mut self, usage: MaterialImageUsage, key: &String) -> Option<&TextureRegion<I, S>>;

    /// Flush any loading started by `get`; may block until every region
    /// handed out so far is usable.
    fn flush(&mut self);
}

/// Resolves images from a built atlas's region table; no input or output
/// happens on a lookup.
#[verifier::reject_recursive_types(I)]
#[verifier::reject_recursive_types(S)]
pub struct AtlasImageResolver<I, S> {
    atlas: TextureAtlas<I, S>,
}

impl<I, S> AtlasImageResolver<I, S> {
    /// The atlas this resolver answers from.
    pub closed spec fn spec_atlas(&self) -> TextureAtlas<I, S> {
        self.atlas
    }

    pub fn new(atlas: TextureAtlas<I, S>) -> (r: Self)
        ensures
            r.spec_atlas() == atlas,
    {
        AtlasImageResolver { atlas }
    }

    /// The region registered under a key, with normalized UV coordinates;
    /// the usage is accepted for interface parity and does not influence the
    /// lookup.
    pub fn get_region(&self, usage: MaterialImageUsage, key: &String) -> (r: Option<&TextureRegion<
        I,
        S,
    >>)
        ensures
            match r {
                Some(reg) => region_uv_wf(*reg) && (exists|i: int|
                    0 <= i < self.spec_atlas().spec_regions().len()
                        && (#[trigger] self.spec_atlas().spec_regions()[i]).0@ == key@ && *reg
                        == self.spec_atlas().spec_regions()[i].1),
                None => forall|i: int|
                    0 <= i < self.spec_atlas().spec_regions().len()
                        ==> (#[trigger] self.spec_atlas().spec_regions()[i]).0@ != key@,
            },
    {
        let _ = usage;
        let r = self.atlas.get(key);
        proof {
            match r {
                Some(reg) => {
                    let w = choose|i: int|
                        0 <= i < self.atlas.spec_regions().len() && (
                        #[trigger] self.atlas.spec_regions()[i]).0@ == key@ && *reg
                            == self.atlas.spec_regions()[i].1 && (forall|j: int|
                            0 <= j < i ==> (#[trigger] self.atlas.spec_regions()[j]).0@ != key@);
                    assert((#[trigger] self.spec_atlas().spec_regions()[w]).0@ == key@ && *reg
                        == self.spec_atlas().spec_regions()[w].1);
                },
                None => {},
            }
        }
        r
    }
}

impl<I, S> ImageResolver<I, S> for AtlasImageResolver<I, S> {
    fn get(&mut self, usage: MaterialImageUsage, key: &String) -> Option<&TextureRegion<I, S>> {
        self.get_region(usage, key)
    }

    fn flush(&mut self) {
    }
}

} // verus!
