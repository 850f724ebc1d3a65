use texture_atlas::atlas::{
    AtlasError, ImageSource, PixelFormat, TextureAtlas,
};
use texture_atlas::rect_solver::SolverError;
use texture_atlas::resolver::{AtlasImageResolver, ImageResolver, MaterialImageUsage};
use texture_atlas::sync::Loader;

fn tiny_png(width: u32, height: u32) -> Vec<u8> {
    let mut buf = Vec::new();
    {
        let mut enc = png::Encoder::new(&mut buf, width, height);
        enc.set_color(png::ColorType::Rgba);
        enc.set_depth(png::BitDepth::Eight);
        let mut writer = enc.write_header().unwrap();
        let pixels = vec![200u8; (width * height * 4) as usize];
        writer.write_image_data(&pixels).unwrap();
    }
    buf
}

#[test]
fn test_name_already_in_use_keeps_first_entry() {
    let mut b = TextureAtlas::<u32, u8>::start();
    b.add_image(String::from("tile"), [10, 10], 1).unwrap();
    let err = b.add_image(String::from("tile"), [20, 20], 2).unwrap_err();
    assert_eq!(err, AtlasError::NameAlreadyInUse(String::from("tile")));
    assert_eq!(b.entries.len(), 1);
    assert_eq!(b.entries[0].dims, [10, 10]);
    assert_eq!(b.entries[0].name, "tile");
    // The first registration is still queryable after a build.
    let build = b.build().unwrap();
    let (_ops, layout) = build.into_parts().unwrap();
    let atlas = layout.into_atlas(1u32, 0u8);
    let reg = atlas.get(&String::from("tile")).unwrap();
    assert_eq!(reg.texture, 1);
}

#[test]
fn test_builder_defaults() {
    let b = TextureAtlas::<u32, u8>::start();
    assert_eq!(b.max_dims, 1024);
    assert_eq!(b.padding, [2, 2]);
    assert_eq!(b.background_color, [0, 0, 0, 0]);
    assert!(b.can_rotate);
    assert_eq!(b.format, PixelFormat::R8G8B8A8Snorm);
    assert!(b.sampler.is_none());
    assert!(b.entries.is_empty());
}

#[test]
fn test_build_from_ready_entries_resolves() {
    let mut b = TextureAtlas::<u32, u8>::start();
    b.set_max_dims(64);
    b.set_padding(1, 1);
    b.add_image(String::from("a"), [10, 10], 100).unwrap();
    b.add_image(String::from("b"), [10, 10], 200).unwrap();
    let build = b.build().unwrap();
    assert_eq!(build.dims, [32, 32]);
    let mut task = build.into_task(4u8, |_dims, _bg, _fmt, _ops| 999u32);
    assert_eq!(task.wait(None), Ok(()));
    let atlas = task.take().unwrap().unwrap();
    for name in ["a", "b"] {
        let reg = atlas.get(&String::from(name)).unwrap();
        for c in reg.uv_a.iter().chain(reg.uv_b.iter()) {
            assert!(c.den >= 1);
            assert!(c.num <= c.den);
        }
        assert_eq!(reg.texture, 999);
        assert_eq!(reg.sampler, 4);
    }
    assert!(atlas.get(&String::from("missing")).is_none());
    assert_eq!(*atlas.get_image(), 999);
}

#[test]
fn test_region_uv_flip_formula() {
    // Two 8x8 entries without padding pack onto a 16x16 canvas, the first at
    // the origin: its region must be exactly the flipped corners
    // (1 - 0/16, 1 - 0/16) and (1 - 8/16, 1 - 8/16).
    let mut b = TextureAtlas::<u8, u8>::start();
    b.set_padding(0, 0);
    b.set_max_dims(16);
    b.add_image(String::from("left"), [8, 8], 1).unwrap();
    b.add_image(String::from("right"), [8, 8], 2).unwrap();
    let build = b.build().unwrap();
    assert_eq!(build.dims, [16, 16]);
    let (ops, layout) = build.into_parts().unwrap();
    assert_eq!(ops.len(), 2);
    assert_eq!(layout.placements[0].pos, [0, 0]);
    assert_eq!(layout.placements[0].size, [8, 8]);
    assert!(!layout.placements[0].rotated);
    let atlas = layout.into_atlas(1u8, 0u8);
    let reg = atlas.get(&String::from("left")).unwrap();
    assert_eq!((reg.uv_a[0].num, reg.uv_a[0].den), (16, 16));
    assert_eq!((reg.uv_a[1].num, reg.uv_a[1].den), (16, 16));
    assert_eq!((reg.uv_b[0].num, reg.uv_b[0].den), (8, 16));
    assert_eq!((reg.uv_b[1].num, reg.uv_b[1].den), (8, 16));
}

#[test]
fn test_build_solver_error_is_synchronous() {
    let mut b = TextureAtlas::<u8, u8>::start();
    b.set_max_dims(8);
    b.set_padding(0, 0);
    b.add_image(String::from("big"), [100, 100], 1).unwrap();
    match b.build() {
        Err(AtlasError::SolverError(SolverError::ImageIsTooBig)) => {}
        Err(e) => panic!("unexpected error: {:?}", e),
        Ok(_) => panic!("build should have failed"),
    }
}

#[test]
fn test_add_data_decodes_dimensions() {
    let mut b = TextureAtlas::<u32, u8>::start();
    b.add_data(String::from("img"), tiny_png(4, 6)).unwrap();
    assert_eq!(b.entries[0].dims, [4, 6]);
    let err = b.add_data(String::from("img"), tiny_png(4, 6)).unwrap_err();
    assert_eq!(err, AtlasError::NameAlreadyInUse(String::from("img")));
    let err = b
        .add_data(String::from("junk"), vec![1, 2, 3, 4])
        .unwrap_err();
    assert_eq!(err, AtlasError::DecodeError(String::from("junk")));
    assert_eq!(b.entries.len(), 1);
}

#[test]
fn test_pending_entry_resolves_through_loader() {
    let mut b = TextureAtlas::<u32, u8>::start();
    b.add_image(String::from("ready"), [4, 4], 1).unwrap();
    b.add_loader(String::from("pending"), [4, 4], Loader::with_closure(|| 77u32))
        .unwrap();
    let build = b.build().unwrap();
    let (ops, layout) = build.into_parts().unwrap();
    assert_eq!(layout.placements.len(), 2);
    let mut found = false;
    for op in ops.iter() {
        if let ImageSource::Ready(v) = &op.image {
            if *v == 77 {
                found = true;
            }
        }
    }
    assert!(found);
}

#[test]
fn test_resolve_requests_uploads_raw_data() {
    let mut b = TextureAtlas::<u32, u8>::start();
    b.add_data(String::from("img"), tiny_png(5, 5)).unwrap();
    b.add_image(String::from("plain"), [3, 3], 8).unwrap();
    let mut build = b.build().unwrap();
    // Upload turns the raw data into a pending image whose handle is the
    // decoded width, so an unchanged passthrough would be visible below.
    build.resolve_requests(|d| Loader::with_value(d.dimensions.0));
    let (ops, _layout) = build.into_parts().unwrap();
    let mut handles = Vec::new();
    for op in ops.iter() {
        match &op.image {
            ImageSource::Ready(v) => handles.push(*v),
            ImageSource::Raw(_) => panic!("raw data left after resolve_requests"),
        }
    }
    handles.sort();
    assert_eq!(handles, vec![5, 8]);
}

#[test]
fn test_set_dim_and_set_scl_edit_last_entry() {
    let mut b = TextureAtlas::<u32, u8>::start();
    b.add_image(String::from("a"), [10, 20], 1).unwrap();
    b.set_dim([30, 40]);
    assert_eq!(b.entries[0].dims, [30, 40]);
    b.set_scl([1, 1], [2, 2]);
    assert_eq!(b.entries[0].dims, [15, 20]);
    b.set_scl([3, 1], [2, 1]);
    assert_eq!(b.entries[0].dims, [22, 20]);
}

#[test]
fn test_atlas_image_resolver_answers_from_regions() {
    let mut b = TextureAtlas::<u8, u8>::start();
    b.add_image(String::from("spot"), [6, 6], 3).unwrap();
    let build = b.build().unwrap();
    let (_ops, layout) = build.into_parts().unwrap();
    let atlas = layout.into_atlas(9u8, 0u8);
    let mut resolver = AtlasImageResolver::new(atlas);
    assert!(resolver
        .get_region(MaterialImageUsage::Diffuse, &String::from("spot"))
        .is_some());
    assert!(resolver
        .get(MaterialImageUsage::Diffuse, &String::from("spot"))
        .is_some());
    assert!(resolver
        .get(MaterialImageUsage::Diffuse, &String::from("nope"))
        .is_none());
    resolver.flush();
}

#[test]
fn test_region_from_image_spans_unit_square() {
    let region = texture_atlas::atlas::TextureRegion::from_image(5u8, 7u8);
    assert_eq!(region.texture, 5);
    assert_eq!(region.sampler, 7);
    // Only the v axis is flipped: (0, 1) at the lower corner, (1, 0) at the
    // upper.
    assert_eq!((region.uv_a[0].num, region.uv_a[0].den), (0, 1));
    assert_eq!((region.uv_a[1].num, region.uv_a[1].den), (1, 1));
    assert_eq!((region.uv_b[0].num, region.uv_b[0].den), (1, 1));
    assert_eq!((region.uv_b[1].num, region.uv_b[1].den), (0, 1));
}

#[test]
fn test_configured_sampler_reaches_the_atlas() {
    let mut b = TextureAtlas::<u32, u8>::start();
    b.set_sampler(9);
    b.add_image(String::from("one"), [4, 4], 1).unwrap();
    let build = b.build().unwrap();
    assert_eq!(build.sampler, Some(9));
    // The configured sampler wins over the default handed to the task.
    let mut task = build.into_task(2u8, |_dims, _bg, _fmt, _ops| 5u32);
    task.wait(None).unwrap();
    let mut atlas = task.take().unwrap().unwrap();
    assert_eq!(atlas.get(&String::from("one")).unwrap().sampler, 9);
    // Replacing the sampler afterwards keeps the region table.
    atlas.set_sampler(3);
    assert!(atlas.get(&String::from("one")).is_some());
}

#[test]
fn test_atlas_clone_shares_regions() {
    let mut b = TextureAtlas::<u8, u8>::start();
    b.set_padding(0, 0);
    b.set_max_dims(8);
    b.add_image(String::from("whole"), [8, 8], 6).unwrap();
    let build = b.build().unwrap();
    let (_ops, layout) = build.into_parts().unwrap();
    let atlas = layout.into_atlas(6u8, 1u8);
    let copy = atlas.clone();
    let a = atlas.get(&String::from("whole")).unwrap();
    let c = copy.get(&String::from("whole")).unwrap();
    assert_eq!(a.uv_a, c.uv_a);
    assert_eq!(a.uv_b, c.uv_b);
    assert_eq!(a.texture, c.texture);
}
