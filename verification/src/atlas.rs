//! Texture atlas generation.
//!
//! An atlas is a single canvas containing many smaller images.  The builder
//! collects named entries, packs them with the rectangle solver, and, once an
//! external rasterizer has composited the canvas, yields an immutable
//! [`TextureAtlas`] that maps each name to a normalized UV region.

use vstd::prelude::*;

verus! {

use crate::image::PNGData;
use crate::image::load_png_data_from_bytes;
use crate::rect_solver::{Rect, Solver, SolverError};
use crate::rect_solver::{
    any_oversize,
    box_disjoint,
    box_in_canvas,
    first_fit_all,
    nom_h,
    nom_w,
    pad_box,
    total_padded_area,
};
use crate::utils::is_pot;
use crate::sync::Loader;

/// Errors of the atlas builder; every failure mode is a typed result.
#[derive(Debug, PartialEq, Eq)]
pub enum AtlasError {
    /// The rectangle solver could not lay the entries out.
    SolverError(SolverError),
    /// An image with the same name was already registered.
    NameAlreadyInUse(String),
    /// The encoded bytes handed in under this name could not be decoded.
    DecodeError(String),
    /// The background work of the entry with this name ended without an
    /// image.
    EntryFailed(String),
}

/// Pixel format of the atlas canvas.
#[derive(Debug, Clone, Copy, PartialEq, Eq, Structural)]
pub enum PixelFormat {
    R8G8B8A8Snorm,
    R8G8B8A8Srgb,
    R8G8B8A8Unorm,
}

/// Image source of one builder entry: exactly one of an already-usable
/// handle, a future for a handle, or raw decoded data awaiting upload.
#[verifier::reject_recursive_types(I)]
pub enum EntryImage<I> {
    /// Image already loaded, usable here and now.
    Image(I),
    /// A future for an image.
    ImageLoader(Loader<I>),
    /// Raw decoded data, not yet uploaded.
    Request(PNGData),
}

/// Atlas builder entry: a named image source and its target dimensions.
#[verifier::reject_recursive_types(I)]
pub struct BuilderEntry<I> {
    pub name: String,
    pub dims: [u32; 2],
    pub image: EntryImage<I>,
}

/// A name is registered among the entries.
pub open spec fn has_name<I>(entries: Seq<BuilderEntry<I>>, name: Seq<char>) -> bool {
    exists|i: int| 0 <= i < entries.len() && #[trigger] entries[i].name@ == name
}

/// Atlas builder: layout configuration plus the ordered list of entries,
/// drained by `build`.  The sampler is an opaque payload handed through to
/// the atlas; when none is set, the build is given a default.
#[verifier::reject_recursive_types(I)]
#[verifier::reject_recursive_types(S)]
pub struct AtlasBuilder<I, S> {
    pub max_dims: u32,
    pub padding: [u32; 2],
    pub background_color: [u8; 4],
    pub can_rotate: bool,
    pub format: PixelFormat,
    pub sampler: Option<S>,
    pub entries: Vec<BuilderEntry<I>>,
}

/// Two builders agree on everything but their entry lists.
pub open spec fn same_config<I, S>(a: AtlasBuilder<I, S>, b: AtlasBuilder<I, S>) -> bool {
    a.max_dims == b.max_dims && a.padding == b.padding && a.background_color == b.background_color
        && a.can_rotate == b.can_rotate && a.format == b.format && a.sampler == b.sampler
}

impl<I, S> AtlasBuilder<I, S> {
    /// A fresh builder with the default configuration: canvas at most
    /// 1024 pixels, two pixels of padding per axis, transparent background,
    /// rotation allowed.
    pub fn start() -> (b: Self)
        ensures
            b.max_dims == 1024,
            b.padding == [2u32, 2u32],
            b.background_color == [0u8, 0u8, 0u8, 0u8],
            b.can_rotate,
            b.format == PixelFormat::R8G8B8A8Snorm,
            b.sampler is None,
            b.entries@ == Seq::<BuilderEntry<I>>::empty(),
    {
        AtlasBuilder {
            max_dims: 1024,
            padding: [2, 2],
            background_color: [0, 0, 0, 0],
            can_rotate: true,
            format: PixelFormat::R8G8B8A8Snorm,
            sampler: None,
            entries: Vec::new(),
        }
    }

    /// Set the maximum canvas dimension.
    pub fn set_max_dims(&mut self, s: u32)
        ensures
            final(self).max_dims == s,
            final(self).padding == old(self).padding,
            final(self).background_color == old(self).background_color,
            final(self).can_rotate == old(self).can_rotate,
            final(self).format == old(self).format,
            final(self).sampler == old(self).sampler,
            final(self).entries == old(self).entries,
    {
        self.max_dims = s;
    }

    /// Set the per-axis padding reserved around every entry.
    pub fn set_padding(&mut self, px: u32, py: u32)
        ensures
            final(self).padding == [px, py],
            final(self).max_dims == old(self).max_dims,
            final(self).background_color == old(self).background_color,
            final(self).can_rotate == old(self).can_rotate,
            final(self).format == old(self).format,
            final(self).sampler == old(self).sampler,
            final(self).entries == old(self).entries,
    {
        self.padding = [px, py];
    }

    /// Set the background color of the canvas, one byte per channel.
    pub fn set_background_color(&mut self, r: u8, g: u8, b: u8, a: u8)
        ensures
            final(self).background_color == [r, g, b, a],
            final(self).max_dims == old(self).max_dims,
            final(self).padding == old(self).padding,
            final(self).can_rotate == old(self).can_rotate,
            final(self).format == old(self).format,
            final(self).sampler == old(self).sampler,
            final(self).entries == old(self).entries,
    {
        self.background_color = [r, g, b, a];
    }

    /// Set the pixel format of the canvas.
    pub fn set_format(&mut self, format: PixelFormat)
        ensures
            final(self).format == format,
            final(self).max_dims == old(self).max_dims,
            final(self).padding == old(self).padding,
            final(self).background_color == old(self).background_color,
            final(self).can_rotate == old(self).can_rotate,
            final(self).sampler == old(self).sampler,
            final(self).entries == old(self).entries,
    {
        self.format = format;
    }

    /// Allow or forbid placing entries rotated by 90 degrees.
    pub fn set_rotation(&mut self, can_rotate: bool)
        ensures
            final(self).can_rotate == can_rotate,
            final(self).max_dims == old(self).max_dims,
            final(self).padding == old(self).padding,
            final(self).background_color == old(self).background_color,
            final(self).format == old(self).format,
            final(self).sampler == old(self).sampler,
            final(self).entries == old(self).entries,
    {
        self.can_rotate = can_rotate;
    }

    /// Set the sampler handed through to the atlas.
    pub fn set_sampler(&mut self, sampler: S)
        ensures
            final(self).sampler == Some(sampler),
            final(self).max_dims == old(self).max_dims,
            final(self).padding == old(self).padding,
            final(self).background_color == old(self).background_color,
            final(self).can_rotate == old(self).can_rotate,
            final(self).format == old(self).format,
            final(self).entries == old(self).entries,
    {
        self.sampler = Some(sampler);
    }

    /// Register an entry; an entry under a name already in use is refused and
    /// leaves the registered entries untouched.
    fn add_entry(&mut self, entry: BuilderEntry<I>) -> (r: Result<(), AtlasError>)
        ensures
            same_config(*final(self), *old(self)),
            match r {
                Ok(()) => !has_name(old(self).entries@, entry.name@) && final(self).entries@
                    == old(self).entries@.push(entry),
                Err(AtlasError::NameAlreadyInUse(n)) => n@ == entry.name@ && has_name(
                    old(self).entries@,
                    entry.name@,
                ) && final(self).entries == old(self).entries,
                Err(_) => false,
            },
    {
        let n = self.entries.len();
        let mut i: usize = 0;
        while i < n
            invariant
                i <= n,
                n == self.entries@.len(),
                *self == *old(self),
                forall|j: int| 0 <= j < i ==> #[trigger] self.entries@[j].name@ != entry.name@,
            decreases n - i,
        {
            if self.entries[i].name == entry.name {
                return Err(AtlasError::NameAlreadyInUse(entry.name));
            }
            i = i + 1;
        }
        self.entries.push(entry);
        Ok(())
    }

    /// Add an already loaded image under a name, with its pixel dimensions.
    pub fn add_image(&mut self, name: String, dims: [u32; 2], image: I) -> (r: Result<
        (),
        AtlasError,
    >)
        ensures
            same_config(*final(self), *old(self)),
            match r {
                Ok(()) => !has_name(old(self).entries@, name@) && final(self).entries@.len() == old(
                    self,
                ).entries@.len() + 1 && final(self).entries@ == old(self).entries@.push(
                    (BuilderEntry { name, dims, image: EntryImage::Image(image) }),
                ),
                Err(AtlasError::NameAlreadyInUse(n)) => n@ == name@ && has_name(
                    old(self).entries@,
                    name@,
                ) && final(self).entries == old(self).entries,
                Err(_) => false,
            },
    {
        self.add_entry(BuilderEntry { name, dims, image: EntryImage::Image(image) })
    }

    /// Add an image future under a name, with its declared pixel dimensions.
    pub fn add_loader(&mut self, name: String, dims: [u32; 2], loader: Loader<I>) -> (r: Result<
        (),
        AtlasError,
    >)
        ensures
            same_config(*final(self), *old(self)),
            match r {
                Ok(()) => !has_name(old(self).entries@, name@) && final(self).entries@ == old(
                    self,
                ).entries@.push(
                    (BuilderEntry { name, dims, image: EntryImage::ImageLoader(loader) }),
                ),
                Err(AtlasError::NameAlreadyInUse(n)) => n@ == name@ && has_name(
                    old(self).entries@,
                    name@,
                ) && final(self).entries == old(self).entries,
                Err(_) => false,
            },
    {
        self.add_entry(BuilderEntry { name, dims, image: EntryImage::ImageLoader(loader) })
    }

    /// Decode encoded image bytes and add the raw data under a name; the
    /// entry's dimensions are the decoded frame's.
    pub fn add_data(&mut self, name: String, data: Vec<u8>) -> (r: Result<(), AtlasError>)
        ensures
            same_config(*final(self), *old(self)),
            match r {
                Ok(()) => {
                    &&& !has_name(old(self).entries@, name@)
                    &&& crate::image::png_decode_of(data@) is Some
                    &&& final(self).entries@.len() == old(self).entries@.len() + 1
                    &&& final(self).entries@.drop_last() == old(self).entries@
                    &&& final(self).entries@.last().name@ == name@
                    &&& final(self).entries@.last().image is Request
                    &&& final(self).entries@.last().dims == [
                        crate::image::png_decode_of(data@).unwrap().0.0,
                        crate::image::png_decode_of(data@).unwrap().0.1,
                    ]
                },
                Err(AtlasError::DecodeError(n)) => n@ == name@ && crate::image::png_decode_of(data@)
                    is None && final(self).entries == old(self).entries,
                Err(AtlasError::NameAlreadyInUse(n)) => n@ == name@ && has_name(
                    old(self).entries@,
                    name@,
                ) && final(self).entries == old(self).entries,
                Err(_) => false,
            },
    {
        match load_png_data_from_bytes(&data) {
            Some(png) => {
                let dims = [png.dimensions.0, png.dimensions.1];
                let r = self.add_entry(
                    BuilderEntry { name, dims, image: EntryImage::Request(png) },
                );
                proof {
                    if r is Ok {
                        assert(self.entries@.drop_last() =~= old(self).entries@);
                    }
                }
                r
            },
            None => Err(AtlasError::DecodeError(name)),
        }
    }

    /// Override the last added entry's target dimensions with an absolute
    /// size.
    pub fn set_dim(&mut self, dim: [u32; 2])
        requires
            old(self).entries@.len() > 0,
        ensures
            same_config(*final(self), *old(self)),
            final(self).entries@.len() == old(self).entries@.len(),
            final(self).entries@.drop_last() == old(self).entries@.drop_last(),
            final(self).entries@.last().name == old(self).entries@.last().name,
            final(self).entries@.last().image == old(self).entries@.last().image,
            final(self).entries@.last().dims == dim,
    {
        let i = self.entries.len() - 1;
        let mut e = self.entries.remove(i);
        e.dims = dim;
        self.entries.push(e);
        proof {
            assert(final(self).entries@.drop_last() =~= old(self).entries@.drop_last());
        }
    }

    /// Scale the last added entry's target dimensions by the rational factor
    /// `num / den` per axis, rounding down and saturating at the largest
    /// representable dimension.
    pub fn set_scl(&mut self, num: [u32; 2], den: [u32; 2])
        requires
            old(self).entries@.len() > 0,
            den[0] > 0,
            den[1] > 0,
        ensures
            same_config(*final(self), *old(self)),
            final(self).entries@.len() == old(self).entries@.len(),
            final(self).entries@.drop_last() == old(self).entries@.drop_last(),
            final(self).entries@.last().name == old(self).entries@.last().name,
            final(self).entries@.last().image == old(self).entries@.last().image,
            final(self).entries@.last().dims[0] == scaled_dim(
                old(self).entries@.last().dims[0] as int,
                num[0] as int,
                den[0] as int,
            ),
            final(self).entries@.last().dims[1] == scaled_dim(
                old(self).entries@.last().dims[1] as int,
                num[1] as int,
                den[1] as int,
            ),
    {
        let i = self.entries.len() - 1;
        let mut e = self.entries.remove(i);
        e.dims = [
            scale_u32(e.dims[0], num[0], den[0]),
            scale_u32(e.dims[1], num[1], den[1]),
        ];
        self.entries.push(e);
        proof {
            assert(final(self).entries@.drop_last() =~= old(self).entries@.drop_last());
        }
    }
}

/// The rectangles handed to the solver: one per entry, keyed by the entry,
/// sized by the entry's target dimensions.
pub open spec fn entry_rects<I>(entries: Seq<BuilderEntry<I>>) -> Seq<Rect<BuilderEntry<I>>> {
    entries.map_values(
        |e: BuilderEntry<I>| Rect { key: e, pos: [0u32, 0u32], size: e.dims, rotated: false },
    )
}

/// A build in flight: the computed canvas dimensions and the placed entries,
/// waiting for every image source to resolve and for an external rasterizer
/// to composite the canvas.
#[verifier::reject_recursive_types(I)]
#[verifier::reject_recursive_types(S)]
pub struct AtlasBuild<I, S> {
    pub dims: [u32; 2],
    pub padding: [u32; 2],
    pub background_color: [u8; 4],
    pub format: PixelFormat,
    pub sampler: Option<S>,
    pub rects: Vec<Rect<BuilderEntry<I>>>,
}

impl<I, S> AtlasBuild<I, S> {
    /// Every placement lies on the square canvas.
    pub open spec fn wf(&self) -> bool {
        &&& self.dims[0] == self.dims[1]
        &&& self.dims[0] >= 1
        &&& forall|i: int|
            0 <= i < self.rects@.len() ==> box_in_canvas(
                pad_box(#[trigger] self.rects@[i], self.padding),
                self.dims[0] as int,
            )
    }
}

impl<I, S> AtlasBuilder<I, S> {
    /// Drain the entries and compute the packing layout synchronously.  A
    /// solver failure aborts the build here, as a typed error; on success the
    /// returned build holds every entry placed on a power-of-two canvas that
    /// holds the total padded area, with pairwise disjoint padded boxes.
    pub fn build(self) -> (r: Result<AtlasBuild<I, S>, AtlasError>)
        ensures
            match r {
                Ok(b) => {
                    &&& b.wf()
                    &&& is_pot(b.dims[0] as int)
                    &&& b.dims[0] <= self.max_dims
                    &&& (b.dims[0] as int) * (b.dims[0] as int) >= total_padded_area(
                        entry_rects(self.entries@),
                        self.padding,
                    )
                    &&& first_fit_all(
                        entry_rects(self.entries@),
                        b.dims[0] as int,
                        self.padding,
                        self.can_rotate,
                    )
                    &&& forall|q: int|
                        is_pot(q) && q * q >= total_padded_area(
                            entry_rects(self.entries@),
                            self.padding,
                        ) && q < b.dims[0] ==> !(#[trigger] first_fit_all(
                            entry_rects(self.entries@),
                            q,
                            self.padding,
                            self.can_rotate,
                        ))
                    &&& b.padding == self.padding
                    &&& b.background_color == self.background_color
                    &&& b.format == self.format
                    &&& b.sampler == self.sampler
                    &&& b.rects@.len() == self.entries@.len()
                    &&& forall|i: int|
                        0 <= i < self.entries@.len() ==> (#[trigger] b.rects@[i]).key
                            == self.entries@[i]
                    &&& forall|i: int|
                        0 <= i < self.entries@.len() ==> nom_w(#[trigger] b.rects@[i])
                            == self.entries@[i].dims[0] && nom_h(b.rects@[i])
                            == self.entries@[i].dims[1]
                    &&& forall|i: int, j: int|
                        0 <= i < j < b.rects@.len() ==> box_disjoint(
                            pad_box(#[trigger] b.rects@[i], self.padding),
                            pad_box(#[trigger] b.rects@[j], self.padding),
                        )
                    &&& forall|i: int|
                        0 <= i < b.rects@.len() ==> ((#[trigger] b.rects@[i]).rotated
                            ==> self.can_rotate)
                },
                Err(AtlasError::SolverError(SolverError::ImageIsTooBig)) => any_oversize(
                    entry_rects(self.entries@),
                    self.padding,
                    self.max_dims as int,
                ),
                Err(AtlasError::SolverError(SolverError::AreaIsTooBig)) => !any_oversize(
                    entry_rects(self.entries@),
                    self.padding,
                    self.max_dims as int,
                ) && total_padded_area(entry_rects(self.entries@), self.padding) > (
                self.max_dims as int) * (self.max_dims as int),
                Err(AtlasError::SolverError(SolverError::CannotFitOnOnePage(idx))) => idx == 0
                    && !any_oversize(entry_rects(self.entries@), self.padding, self.max_dims as int)
                    && total_padded_area(entry_rects(self.entries@), self.padding) <= (
                self.max_dims as int) * (self.max_dims as int) && (forall|q: int|
                    is_pot(q) && q * q >= total_padded_area(
                        entry_rects(self.entries@),
                        self.padding,
                    ) && q <= self.max_dims ==> !(#[trigger] first_fit_all(
                        entry_rects(self.entries@),
                        q,
                        self.padding,
                        self.can_rotate,
                    ))),
                Err(_) => false,
            },
    {
        let AtlasBuilder {
            max_dims,
            padding,
            background_color,
            can_rotate,
            format,
            sampler,
            mut entries,
        } = self;
        let ghost all = entries@;
        let mut rects: Vec<Rect<BuilderEntry<I>>> = Vec::new();
        while entries.len() > 0
            invariant
                rects@.len() + entries@.len() == all.len(),
                entries@ == all.skip(rects@.len() as int),
                forall|i: int|
                    0 <= i < rects@.len() ==> #[trigger] rects@[i] == entry_rects(all)[i],
            decreases entries@.len(),
        {
            let e = entries.remove(0);
            let dims = e.dims;
            rects.push(Rect::new(e, dims[0], dims[1]));
            proof {
                broadcast use vstd::array::axiom_array_ext_equal;

                let k = rects@.len() - 1;
                assert(all.skip(k)[0] == all[k]);
                assert(entry_rects(all)[k] == (Rect {
                    key: all[k],
                    pos: [0u32, 0u32],
                    size: all[k].dims,
                    rotated: false,
                }));
                assert(rects@[k].pos =~= (entry_rects(all)[k]).pos);
                assert(rects@[k].size =~= (entry_rects(all)[k]).size);
                assert(rects@[k] == entry_rects(all)[k]);
                assert(entries@ =~= all.skip(rects@.len() as int));
            }
        }
        proof {
            assert(rects@ =~= entry_rects(all));
        }
        let solver = Solver::with_params(max_dims, padding, can_rotate);
        match solver.solve(&mut rects) {
            Ok(dims) => Ok(
                AtlasBuild { dims, padding, background_color, format, sampler, rects },
            ),
            Err(e) => Err(AtlasError::SolverError(e)),
        }
    }
}

/// A resolved image handle, or raw data the rasterizer must upload itself.
#[verifier::reject_recursive_types(I)]
pub enum ImageSource<I> {
    Ready(I),
    Raw(PNGData),
}

/// One draw command for the external rasterizer: an image source and the
/// placement it is drawn at.
#[verifier::reject_recursive_types(I)]
pub struct DrawOp<I> {
    pub image: ImageSource<I>,
    pub pos: [u32; 2],
    pub size: [u32; 2],
    pub rotated: bool,
}

/// The placement of one named entry on the canvas.
pub struct Placement {
    pub name: String,
    pub pos: [u32; 2],
    pub size: [u32; 2],
    pub rotated: bool,
}

/// The placement lies within the canvas.
pub open spec fn placement_ok(p: Placement, dims: [u32; 2]) -> bool {
    p.pos[0] + p.size[0] <= dims[0] && p.pos[1] + p.size[1] <= dims[1]
}

/// The computed layout of a build: the canvas dimensions and one placement
/// per entry, in draw order.
pub struct AtlasLayout {
    pub dims: [u32; 2],
    pub placements: Vec<Placement>,
}

impl AtlasLayout {
    /// The canvas is non-empty and every placement lies on it.
    pub open spec fn wf(&self) -> bool {
        &&& self.dims[0] >= 1
        &&& self.dims[1] >= 1
        &&& forall|i: int|
            0 <= i < self.placements@.len() ==> placement_ok(
                #[trigger] self.placements@[i],
                self.dims,
            )
    }
}

impl<I, S> AtlasBuild<I, S> {
    /// Resolve every entry, blocking on each pending image in draw order, and
    /// split the build into the draw list for the rasterizer and the atlas
    /// layout.  A build that holds no pending entries resolves without any
    /// blocking wait.
    pub fn into_parts(self) -> (r: Result<(Vec<DrawOp<I>>, AtlasLayout), AtlasError>)
        ensures
            match r {
                Ok((ops, layout)) => {
                    &&& layout.dims == self.dims
                    &&& self.wf() ==> layout.wf()
                    &&& layout.placements@.len() == self.rects@.len()
                    &&& ops@.len() == self.rects@.len()
                    &&& forall|i: int|
                        0 <= i < self.rects@.len() ==> (#[trigger] layout.placements@[i]).name
                            == self.rects@[i].key.name && layout.placements@[i].pos
                            == self.rects@[i].pos && layout.placements@[i].size
                            == self.rects@[i].size && layout.placements@[i].rotated
                            == self.rects@[i].rotated
                    &&& forall|i: int|
                        0 <= i < self.rects@.len() ==> (#[trigger] ops@[i]).pos
                            == self.rects@[i].pos && ops@[i].size == self.rects@[i].size
                            && ops@[i].rotated == self.rects@[i].rotated
                    &&& forall|i: int|
                        0 <= i < self.rects@.len() ==> ((#[trigger] self.rects@[i]).key.image
                            matches EntryImage::Image(img) ==> ops@[i].image
                            == ImageSource::Ready(img))
                    &&& forall|i: int|
                        0 <= i < self.rects@.len() ==> ((#[trigger] self.rects@[i]).key.image
                            matches EntryImage::Request(d) ==> ops@[i].image == ImageSource::<
                        I>::Raw(d))
                    &&& forall|i: int|
                        0 <= i < self.rects@.len() ==> ((#[trigger] self.rects@[i]).key.image
                            is ImageLoader ==> ops@[i].image is Ready)
                },
                Err(AtlasError::EntryFailed(n)) => exists|i: int|
                    0 <= i < self.rects@.len() && (#[trigger] self.rects@[i]).key.image
                        is ImageLoader && self.rects@[i].key.name@ == n@,
                Err(_) => false,
            },
            (forall|i: int|
                0 <= i < self.rects@.len() ==> !((#[trigger] self.rects@[i]).key.image
                    is ImageLoader)) ==> r is Ok,
    {
        let AtlasBuild { dims, padding, background_color: _, format: _, sampler: _, mut rects } =
            self;
        let ghost all = rects@;
        let mut ops: Vec<DrawOp<I>> = Vec::new();
        let mut placements: Vec<Placement> = Vec::new();
        while rects.len() > 0
            invariant
                all == self.rects@,
                ops@.len() == placements@.len(),
                ops@.len() + rects@.len() == all.len(),
                rects@ == all.skip(ops@.len() as int),
                forall|i: int|
                    0 <= i < placements@.len() ==> (#[trigger] placements@[i]).name
                        == all[i].key.name && placements@[i].pos == all[i].pos
                        && placements@[i].size == all[i].size && placements@[i].rotated
                        == all[i].rotated,
                forall|i: int|
                    0 <= i < ops@.len() ==> (#[trigger] ops@[i]).pos == all[i].pos && ops@[i].size
                        == all[i].size && ops@[i].rotated == all[i].rotated,
                forall|i: int|
                    0 <= i < ops@.len() ==> (all[i].key.image matches EntryImage::Image(img)
                        ==> (#[trigger] ops@[i]).image == ImageSource::Ready(img)),
                forall|i: int|
                    0 <= i < ops@.len() ==> (all[i].key.image matches EntryImage::Request(d)
                        ==> (#[trigger] ops@[i]).image == ImageSource::<I>::Raw(d)),
                forall|i: int|
                    0 <= i < ops@.len() ==> (all[i].key.image is ImageLoader ==> (
                    #[trigger] ops@[i]).image is Ready),
            decreases rects@.len(),
        {
            let ghost k = ops@.len() as int;
            let r = rects.remove(0);
            proof {
                assert(all.skip(k)[0] == all[k]);
                assert(rects@ =~= all.skip(k + 1));
            }
            let Rect { key, pos, size, rotated } = r;
            let BuilderEntry { name, dims: _, image } = key;
            let src = match image {
                EntryImage::Image(img) => ImageSource::Ready(img),
                EntryImage::ImageLoader(l) => {
                    let mut loader = l;
                    match loader.take() {
                        Ok(img) => ImageSource::Ready(img),
                        Err(_) => {
                            proof {
                                assert((#[trigger] self.rects@[k]).key.image is ImageLoader);
                                assert(self.rects@[k].key.name@ == name@);
                            }
                            return Err(AtlasError::EntryFailed(name));
                        },
                    }
                },
                EntryImage::Request(d) => ImageSource::Raw(d),
            };
            ops.push(DrawOp { image: src, pos, size, rotated });
            placements.push(Placement { name, pos, size, rotated });
        }
        proof {
            if self.wf() {
                assert forall|i: int| 0 <= i < placements@.len() implies placement_ok(
                    #[trigger] placements@[i],
                    dims,
                ) by {
                    assert(box_in_canvas(pad_box(all[i], padding), dims[0] as int));
                }
            }
        }
        Ok((ops, AtlasLayout { dims, placements }))
    }
}

/// The image source is a pending upload that `upload` produced from the
/// given raw data.
pub open spec fn uploaded_from<I, F: Fn(PNGData) -> Loader<I>>(
    img: EntryImage<I>,
    d: PNGData,
    upload: F,
) -> bool {
    exists|l: Loader<I>| img == EntryImage::ImageLoader(l) && upload.ensures((d,), l)
}

/// The two rectangles agree on placement, name and target dimensions; only
/// the image source may differ.
pub open spec fn same_placement<I>(q: Rect<BuilderEntry<I>>, r: Rect<BuilderEntry<I>>) -> bool {
    q.pos == r.pos && q.size == r.size && q.rotated == r.rotated && q.key.name == r.key.name
        && q.key.dims == r.key.dims
}

impl<I, S> AtlasBuild<I, S> {
    /// Begin upload of every entry still holding raw data: each such entry
    /// becomes a pending image through the given upload function; placements
    /// and all other entries stay untouched.
    pub fn resolve_requests<F: Fn(PNGData) -> Loader<I>>(&mut self, upload: F)
        requires
            forall|d: PNGData| upload.requires((d,)),
        ensures
            final(self).dims == old(self).dims,
            final(self).padding == old(self).padding,
            final(self).background_color == old(self).background_color,
            final(self).format == old(self).format,
            final(self).sampler == old(self).sampler,
            final(self).rects@.len() == old(self).rects@.len(),
            forall|i: int|
                0 <= i < old(self).rects@.len() ==> same_placement(
                    #[trigger] final(self).rects@[i],
                    old(self).rects@[i],
                ),
            forall|i: int|
                0 <= i < old(self).rects@.len() ==> !((#[trigger] final(self).rects@[i]).key.image
                    is Request),
            forall|i: int|
                0 <= i < old(self).rects@.len() ==> (!(old(self).rects@[i].key.image is Request)
                    ==> (#[trigger] final(self).rects@[i]).key.image
                    == old(self).rects@[i].key.image),
            forall|i: int|
                0 <= i < old(self).rects@.len() ==> (old(self).rects@[i].key.image matches
                EntryImage::Request(d) ==> uploaded_from(
                    (#[trigger] final(self).rects@[i]).key.image,
                    d,
                    upload,
                )),
    {
        let n = self.rects.len();
        let mut idx: usize = 0;
        while idx < n
            invariant
                idx <= n,
                n == self.rects@.len(),
                self.rects@.len() == old(self).rects@.len(),
                self.dims == old(self).dims,
                self.padding == old(self).padding,
                self.background_color == old(self).background_color,
                self.format == old(self).format,
                self.sampler == old(self).sampler,
                forall|d: PNGData| upload.requires((d,)),
                forall|i: int| idx <= i < n ==> #[trigger] self.rects@[i] == old(self).rects@[i],
                forall|i: int|
                    0 <= i < idx ==> same_placement(
                        #[trigger] self.rects@[i],
                        old(self).rects@[i],
                    ),
                forall|i: int|
                    0 <= i < idx ==> !((#[trigger] self.rects@[i]).key.image is Request),
                forall|i: int|
                    0 <= i < idx ==> (!(old(self).rects@[i].key.image is Request) ==> (
                    #[trigger] self.rects@[i]).key.image == old(self).rects@[i].key.image),
                forall|i: int|
                    0 <= i < idx ==> (old(self).rects@[i].key.image matches EntryImage::Request(
                    d) ==> uploaded_from((#[trigger] self.rects@[i]).key.image, d, upload)),
            decreases n - idx,
        {
            let ghost pre = self.rects@;
            let r = self.rects.remove(idx);
            let Rect { key, pos, size, rotated } = r;
            let BuilderEntry { name, dims: entry_dims, image } = key;
            let image = match image {
                EntryImage::Request(d) => {
                    let ghost d0 = d;
                    let l = upload(d);
                    proof {
                        assert(uploaded_from(EntryImage::ImageLoader(l), d0, upload));
                    }
                    EntryImage::ImageLoader(l)
                },
                other => other,
            };
            self.rects.insert(
                idx,
                Rect { key: BuilderEntry { name, dims: entry_dims, image }, pos, size, rotated },
            );
            proof {
                assert(self.rects@ =~= pre.update(idx as int, self.rects@[idx as int]));
            }
            idx = idx + 1;
        }
    }
}

impl<I: Send + Clone + 'static, S: Send + Clone + 'static> AtlasBuild<I, S> {
    /// Run the whole second phase of a build on a background worker: wait on
    /// every entry, composite the canvas through the given rasterizing
    /// function, and resolve to the finished atlas or to the first failure.
    /// The atlas carries the configured sampler, or the given default where
    /// none was set.  The caller is never blocked before its first wait on
    /// the task.
    pub fn into_task<F: FnOnce([u32; 2], [u8; 4], PixelFormat, Vec<DrawOp<I>>) -> I + Send + 'static>(
        self,
        default_sampler: S,
        composite: F,
    ) -> (t: Loader<Result<TextureAtlas<I, S>, AtlasError>>)
        requires
            self.wf(),
            forall|d: [u32; 2], bg: [u8; 4], f: PixelFormat, v: Vec<DrawOp<I>>|
                composite.requires((d, bg, f, v)),
        ensures
            t.is_pending(),
            t.value() is None,
            !t.is_taken(),
    {
        let AtlasBuild { dims, padding, background_color, format, sampler, rects } = self;
        let chosen = match sampler {
            Some(s) => s,
            None => default_sampler,
        };
        let build = AtlasBuild::<I, S> {
            dims,
            padding,
            background_color,
            format,
            sampler: None,
            rects,
        };
        let bg = background_color;
        let fmt = format;
        let work = move || -> (out: Result<TextureAtlas<I, S>, AtlasError>)
            ensures
                match out {
                    Ok(atlas) => {
                        &&& atlas.spec_regions().len() == build.rects@.len()
                        &&& atlas.spec_sampler() == chosen
                        &&& forall|i: int|
                            0 <= i < build.rects@.len() ==> (#[trigger] atlas.spec_regions()[i]).0
                                == build.rects@[i].key.name
                        &&& forall|i: int|
                            0 <= i < build.rects@.len() ==> region_matches(
                                (#[trigger] atlas.spec_regions()[i]).1,
                                (Placement {
                                    name: build.rects@[i].key.name,
                                    pos: build.rects@[i].pos,
                                    size: build.rects@[i].size,
                                    rotated: build.rects@[i].rotated,
                                }),
                                build.dims,
                            )
                        &&& exists|v: Vec<DrawOp<I>>, img: I|
                            #[trigger] composite.ensures(
                                (build.dims, build.background_color, build.format, v),
                                img,
                            ) && atlas.spec_image() == img && v@.len() == build.rects@.len()
                    },
                    Err(AtlasError::EntryFailed(n)) => exists|i: int|
                        0 <= i < build.rects@.len() && (#[trigger] build.rects@[i]).key.image
                            is ImageLoader && build.rects@[i].key.name@ == n@,
                    Err(_) => false,
                },
                (forall|i: int|
                    0 <= i < build.rects@.len() ==> !((#[trigger] build.rects@[i]).key.image
                        is ImageLoader)) ==> out is Ok,
            {
                match build.into_parts() {
                    Ok((ops, layout)) => {
                        let ghost ops0 = ops;
                        let image = composite(dims, bg, fmt, ops);
                        proof {
                            assert(build.dims == dims && build.background_color == bg
                                && build.format == fmt);
                            assert(composite.ensures(
                                (build.dims, build.background_color, build.format, ops0),
                                image,
                            ));
                        }
                        Ok(layout.into_atlas(image, chosen))
                    },
                    Err(e) => Err(e),
                }
            };
        Loader::with_closure(work)
    }
}

/// One exactly representable UV coordinate: the fraction `num / den`.
#[derive(Debug, Clone, Copy, PartialEq, Eq, Structural)]
pub struct UvCoord {
    pub num: u32,
    pub den: u32,
}

/// The coordinate is a normalized fraction in [0, 1].
pub open spec fn uv_in_range(c: UvCoord) -> bool {
    c.den >= 1 && c.num <= c.den
}

/// Region of the atlas: the shared canvas image, the sampler, and one
/// normalized UV sub-rectangle, already flipped to the rasterizer's
/// coordinate convention.
#[derive(Clone)]
#[verifier::reject_recursive_types(I)]
#[verifier::reject_recursive_types(S)]
pub struct TextureRegion<I, S> {
    pub texture: I,
    pub sampler: S,
    pub uv_a: [UvCoord; 2],
    pub uv_b: [UvCoord; 2],
}

/// All four coordinates of the region are normalized.
pub open spec fn region_uv_wf<I, S>(r: TextureRegion<I, S>) -> bool {
    uv_in_range(r.uv_a[0]) && uv_in_range(r.uv_a[1]) && uv_in_range(r.uv_b[0]) && uv_in_range(
        r.uv_b[1],
    )
}

/// The region's UVs are exactly the placement's corners under the fixed
/// flip: `u = 1 - x / W`, `v = 1 - y / H` at the origin corner, and the same
/// flip at the opposite corner `(x + w, y + h)`.
pub open spec fn region_matches<I, S>(r: TextureRegion<I, S>, p: Placement, dims: [u32; 2]) -> bool {
    &&& r.uv_a[0].num == dims[0] - p.pos[0] && r.uv_a[0].den == dims[0]
    &&& r.uv_a[1].num == dims[1] - p.pos[1] && r.uv_a[1].den == dims[1]
    &&& r.uv_b[0].num == dims[0] - (p.pos[0] + p.size[0]) && r.uv_b[0].den == dims[0]
    &&& r.uv_b[1].num == dims[1] - (p.pos[1] + p.size[1]) && r.uv_b[1].den == dims[1]
}

impl<I, S> TextureRegion<I, S> {
    /// A region spanning a whole image: the unit square with only the v
    /// axis flipped, from the lower corner (0, 1) to the upper corner
    /// (1, 0).
    pub fn from_image(texture: I, sampler: S) -> (r: Self)
        ensures
            r.texture == texture,
            r.sampler == sampler,
            r.uv_a[0] == (UvCoord { num: 0, den: 1 }),
            r.uv_a[1] == (UvCoord { num: 1, den: 1 }),
            r.uv_b[0] == (UvCoord { num: 1, den: 1 }),
            r.uv_b[1] == (UvCoord { num: 0, den: 1 }),
    {
        TextureRegion {
            texture,
            sampler,
            uv_a: [UvCoord { num: 0, den: 1 }, UvCoord { num: 1, den: 1 }],
            uv_b: [UvCoord { num: 1, den: 1 }, UvCoord { num: 0, den: 1 }],
        }
    }
}

/// Immutable result of a build: the composited canvas image, the sampler,
/// and the region table, addressable by entry name.  An atlas is shared
/// read-only across its consumers.
#[verifier::reject_recursive_types(I)]
#[verifier::reject_recursive_types(S)]
pub struct TextureAtlas<I, S> {
    image: I,
    sampler: S,
    regions: Vec<(String, TextureRegion<I, S>)>,
}

impl<I, S> TextureAtlas<I, S> {
    /// The atlas image.
    pub closed spec fn spec_image(&self) -> I {
        self.image
    }

    /// The atlas sampler.
    pub closed spec fn spec_sampler(&self) -> S {
        self.sampler
    }

    /// The region table: names paired with regions, in entry order.
    pub closed spec fn spec_regions(&self) -> Seq<(String, TextureRegion<I, S>)> {
        self.regions@
    }

    /// Every region's UV coordinates are normalized.
    #[verifier::type_invariant]
    spec fn wf(&self) -> bool {
        forall|i: int|
            0 <= i < self.regions@.len() ==> region_uv_wf((#[trigger] self.regions@[i]).1)
    }

    /// Begin configuring a new atlas.
    pub fn start() -> (b: AtlasBuilder<I, S>)
        ensures
            b.max_dims == 1024,
            b.padding == [2u32, 2u32],
            b.background_color == [0u8, 0u8, 0u8, 0u8],
            b.can_rotate,
            b.format == PixelFormat::R8G8B8A8Snorm,
            b.sampler is None,
            b.entries@ == Seq::<BuilderEntry<I>>::empty(),
    {
        AtlasBuilder::start()
    }

    /// Replace the sampler; the image and the region table stay untouched.
    pub fn set_sampler(&mut self, sampler: S)
        ensures
            final(self).spec_sampler() == sampler,
            final(self).spec_image() == old(self).spec_image(),
            final(self).spec_regions() == old(self).spec_regions(),
    {
        proof {
            use_type_invariant(&*self);
        }
        self.sampler = sampler;
    }

    /// Shared reference to the atlas image.
    pub fn get_image(&self) -> (r: &I)
        ensures
            *r == self.spec_image(),
    {
        &self.image
    }

    /// The region registered under a name: a normal lookup, where an absent
    /// key is an ordinary "not found".  Every returned region has normalized
    /// UV coordinates.
    pub fn get(&self, key: &String) -> (r: Option<&TextureRegion<I, S>>)
        ensures
            match r {
                Some(reg) => {
                    &&& region_uv_wf(*reg)
                    &&& exists|i: int|
                        0 <= i < self.spec_regions().len() && (#[trigger] self.spec_regions()[
                            i
                        ]).0@ == key@ && *reg == self.spec_regions()[i].1 && (forall|j: int|
                            0 <= j < i ==> (#[trigger] self.spec_regions()[j]).0@ != key@)
                },
                None => forall|i: int|
                    0 <= i < self.spec_regions().len() ==> (#[trigger] self.spec_regions()[i]).0@
                        != key@,
            },
    {
        let n = self.regions.len();
        let mut i: usize = 0;
        while i < n
            invariant
                i <= n,
                n == self.regions@.len(),
                forall|j: int| 0 <= j < i ==> (#[trigger] self.regions@[j]).0@ != key@,
            decreases n - i,
        {
            if self.regions[i].0 == *key {
                proof {
                    use_type_invariant(&*self);
                    assert((#[trigger] self.spec_regions()[i as int]).0@ == key@);
                    assert(region_uv_wf(self.spec_regions()[i as int].1));
                }
                return Some(&self.regions[i].1);
            }
            i = i + 1;
        }
        None
    }
}

impl AtlasLayout {
    /// Fold the layout over the composited canvas image: one region per
    /// placement, its UVs given exactly by the flip formula; every region
    /// shares the image and the sampler.
    pub fn into_atlas<I: Clone, S: Clone>(self, image: I, sampler: S) -> (a: TextureAtlas<I, S>)
        requires
            self.wf(),
        ensures
            a.spec_image() == image,
            a.spec_sampler() == sampler,
            a.spec_regions().len() == self.placements@.len(),
            forall|i: int|
                0 <= i < self.placements@.len() ==> (#[trigger] a.spec_regions()[i]).0
                    == self.placements@[i].name,
            forall|i: int|
                0 <= i < self.placements@.len() ==> region_matches(
                    (#[trigger] a.spec_regions()[i]).1,
                    self.placements@[i],
                    self.dims,
                ),
    {
        let AtlasLayout { dims, mut placements } = self;
        let ghost all = placements@;
        let mut regions: Vec<(String, TextureRegion<I, S>)> = Vec::new();
        while placements.len() > 0
            invariant
                regions@.len() + placements@.len() == all.len(),
                placements@ == all.skip(regions@.len() as int),
                dims[0] >= 1,
                dims[1] >= 1,
                forall|i: int| 0 <= i < all.len() ==> placement_ok(#[trigger] all[i], dims),
                forall|i: int|
                    0 <= i < regions@.len() ==> (#[trigger] regions@[i]).0 == all[i].name,
                forall|i: int|
                    0 <= i < regions@.len() ==> region_matches(
                        (#[trigger] regions@[i]).1,
                        all[i],
                        dims,
                    ),
                forall|i: int|
                    0 <= i < regions@.len() ==> region_uv_wf((#[trigger] regions@[i]).1),
            decreases placements@.len(),
        {
            let ghost k = regions@.len() as int;
            let p = placements.remove(0);
            proof {
                assert(all.skip(k)[0] == all[k]);
                assert(placements@ =~= all.skip(k + 1));
                assert(placement_ok(all[k], dims));
            }
            let u0 = dims[0] - p.pos[0];
            let v0 = dims[1] - p.pos[1];
            let u1 = dims[0] - (p.pos[0] + p.size[0]);
            let v1 = dims[1] - (p.pos[1] + p.size[1]);
            let region = TextureRegion {
                texture: image.clone(),
                sampler: sampler.clone(),
                uv_a: [
                    UvCoord { num: u0, den: dims[0] },
                    UvCoord { num: v0, den: dims[1] },
                ],
                uv_b: [
                    UvCoord { num: u1, den: dims[0] },
                    UvCoord { num: v1, den: dims[1] },
                ],
            };
            regions.push((p.name, region));
        }
        TextureAtlas { image, sampler, regions }
    }
}

impl<I: Clone, S: Clone> Clone for TextureAtlas<I, S> {
    /// Cloning is cheap sharing: the image and sampler handles are cloned
    /// and every region keeps its name and its exact UV corners.
    fn clone(&self) -> (r: Self)
        ensures
            r.spec_regions().len() == self.spec_regions().len(),
            forall|i: int|
                0 <= i < self.spec_regions().len() ==> (#[trigger] r.spec_regions()[i]).0
                    == self.spec_regions()[i].0 && r.spec_regions()[i].1.uv_a
                    == self.spec_regions()[i].1.uv_a && r.spec_regions()[i].1.uv_b
                    == self.spec_regions()[i].1.uv_b,
    {
        proof {
            use_type_invariant(self);
        }
        let n = self.regions.len();
        let mut regions: Vec<(String, TextureRegion<I, S>)> = Vec::new();
        let mut i: usize = 0;
        while i < n
            invariant
                i <= n,
                n == self.regions@.len(),
                regions@.len() == i,
                forall|j: int|
                    0 <= j < i ==> (#[trigger] regions@[j]).0 == self.regions@[j].0
                        && regions@[j].1.uv_a == self.regions@[j].1.uv_a && regions@[j].1.uv_b
                        == self.regions@[j].1.uv_b,
                forall|j: int| 0 <= j < i ==> region_uv_wf((#[trigger] regions@[j]).1),
            decreases n - i,
        {
            proof {
                use_type_invariant(self);
            }
            let entry = &self.regions[i];
            let region = TextureRegion {
                texture: entry.1.texture.clone(),
                sampler: entry.1.sampler.clone(),
                uv_a: entry.1.uv_a,
                uv_b: entry.1.uv_b,
            };
            regions.push((entry.0.clone(), region));
            i = i + 1;
        }
        TextureAtlas { image: self.image.clone(), sampler: self.sampler.clone(), regions }
    }
}

/// `d * num / den`, rounded down and saturated at the `u32` maximum.
pub open spec fn scaled_dim(d: int, num: int, den: int) -> int {
    let q = (d * num) / den;
    if q > 0xFFFF_FFFF {
        0xFFFF_FFFF
    } else {
        q
    }
}

/// Scale one dimension by a rational factor.
fn scale_u32(d: u32, num: u32, den: u32) -> (r: u32)
    requires
        den > 0,
    ensures
        r == scaled_dim(d as int, num as int, den as int),
{
    proof {
        vstd::arithmetic::mul::lemma_mul_upper_bound(
            d as int,
            0xFFFF_FFFFint,
            num as int,
            0xFFFF_FFFFint,
        );
    }
    let q = (d as u64 * num as u64) / (den as u64);
    if q > 0xFFFF_FFFF {
        0xFFFF_FFFF
    } else {
        q as u32
    }
}

} // verus!
