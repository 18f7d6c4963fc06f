use veila::renderer::avatar::{
    image_key, plan_avatar, prepare_avatar_image, resolved_avatar_radius, rgba_to_pixmap,
    style_placeholder_padding, AvatarAsset, AvatarOutline, AvatarStyle, MAX_PREPARED_AVATAR_SIZE,
};
use veila::renderer::buffer::{PixelBuffer, SoftwareBuffer, SoftwareBufferView};
use veila::renderer::cache::{
    avatar_cache_name, cache_root, decode_source_cache, encode_source_cache, source_cache_name,
    stable_hash, temporary_cache_path, RgbaPixels,
};
use veila::renderer::copy::copy_rect_from;
use veila::renderer::crossfade::{
    blend_crossfade_pixels, crossfade_buffers, crossfade_buffers_into, crossfade_chunk_len,
    crossfade_threads, crossfade_weight, eased_crossfade_progress,
};
use veila::renderer::frame::{
    premultiply_channel, unpremultiply_channel, ClearColor, FrameSize, RendererError, ShadowStyle,
};
use veila::renderer::icon::{extract_path_data, extract_viewbox, parse_path_data, SegmentKind};
use veila::renderer::shape::{BorderStyle, Rect};
use veila::renderer::shm::{
    choose_slot, required_pool_len, reserved_bytes_for_slots, ShmBufferRelease, SlotChoice,
    SurfaceBufferPool, MAX_BUFFER_SLOTS,
};
use veila::common::path::FilePath;

#[test]
fn detects_empty_frame_sizes() {
    assert!(FrameSize::new(0, 1080).is_empty());
    assert!(!FrameSize::new(1920, 1080).is_empty());
}

#[test]
fn computes_argb8888_byte_size() {
    assert_eq!(FrameSize::new(2, 3).byte_len(), Some(24));
}

#[test]
fn copies_clipped_rect_between_matching_buffers() {
    let source =
        SoftwareBuffer::solid(FrameSize::new(4, 4), ClearColor::opaque(10, 20, 30)).unwrap();
    let mut target = SoftwareBuffer::solid(FrameSize::new(4, 4), ClearColor::opaque(0, 0, 0))
        .expect("target");

    let copied = copy_rect_from(&source, &mut target, Rect::new(1, 1, 2, 2)).expect("copy rect");
    assert_eq!(copied, Some(Rect::new(1, 1, 2, 2)));

    let stride = target.size().width as usize;
    for y in 0..4 {
        for x in 0..4 {
            let offset = (y * stride + x) * 4;
            let pixel = &target.pixels()[offset..offset + 4];
            if (1..3).contains(&x) && (1..3).contains(&y) {
                assert_eq!(pixel, &[30, 20, 10, 255]);
            } else {
                assert_eq!(pixel, &[0, 0, 0, 255]);
            }
        }
    }
}

#[test]
fn copying_outside_the_frame_changes_nothing() {
    let source = SoftwareBuffer::solid(FrameSize::new(2, 2), ClearColor::opaque(1, 2, 3)).unwrap();
    let mut target = SoftwareBuffer::new(FrameSize::new(2, 2)).unwrap();
    assert_eq!(copy_rect_from(&source, &mut target, Rect::new(5, 5, 2, 2)).expect("copy"), None);
    assert!(target.pixels().iter().all(|byte| *byte == 0));
    assert_eq!(
        copy_rect_from(&source, &mut target, Rect::new(-1, 1, 2, 5)).expect("copy"),
        Some(Rect::new(0, 1, 1, 1))
    );
    assert_eq!(&target.pixels()[8..12], &[3, 2, 1, 255]);
    assert_eq!(&target.pixels()[12..16], &[0, 0, 0, 0]);
    let mut other = SoftwareBuffer::new(FrameSize::new(1, 2)).unwrap();
    assert!(matches!(
        copy_rect_from(&source, &mut other, Rect::new(0, 0, 1, 1)),
        Err(RendererError::BufferSizeMismatch { .. })
    ));
}

#[test]
fn fills_solid_buffers() {
    let buffer = SoftwareBuffer::solid(FrameSize::new(2, 1), ClearColor::opaque(10, 20, 30))
        .expect("buffer should be created");

    assert_eq!(buffer.pixels(), &[30, 20, 10, 255, 30, 20, 10, 255]);
}

#[test]
fn creates_buffer_from_argb8888_pixels() {
    let buffer = SoftwareBuffer::from_argb8888_pixels(FrameSize::new(1, 1), vec![4, 3, 2, 1])
        .expect("buffer should be created");

    assert_eq!(buffer.pixels(), &[4, 3, 2, 1]);
    assert!(matches!(
        SoftwareBuffer::from_argb8888_pixels(FrameSize::new(1, 1), vec![4, 3, 2]),
        Err(RendererError::InvalidFrameSize(FrameSize { width: 1, height: 1 }))
    ));
}

#[test]
fn buffer_views_take_memory_of_the_right_length() {
    let mut memory = vec![0u8; 8];
    {
        let mut view = SoftwareBufferView::new(FrameSize::new(2, 1), &mut memory).expect("view");
        PixelBuffer::clear(&mut view, ClearColor::rgba(255, 255, 255, 26));
    }
    assert_eq!(memory, vec![26, 26, 26, 26, 26, 26, 26, 26]);
    assert!(SoftwareBufferView::new(FrameSize::new(1, 1), &mut memory).is_err());
}

#[test]
fn crossfades_between_two_buffers() {
    let from =
        SoftwareBuffer::solid(FrameSize::new(1, 1), ClearColor::opaque(0, 0, 0)).expect("from");
    let to = SoftwareBuffer::solid(FrameSize::new(1, 1), ClearColor::opaque(100, 50, 25))
        .expect("to");

    let start = crossfade_buffers(&from, &to, 0).expect("crossfade at 0% should succeed");
    assert_eq!(start.pixels(), from.pixels());

    let end = crossfade_buffers(&from, &to, 100).expect("crossfade at 100% should succeed");
    assert_eq!(end.pixels(), to.pixels());

    let mid = crossfade_buffers(&from, &to, 50).expect("crossfade at 50% should succeed");
    assert_eq!(mid.pixels(), &[13, 25, 50, 255]);
}

#[test]
fn crossfading_buffers_of_other_sizes_is_refused() {
    let from = SoftwareBuffer::new(FrameSize::new(1, 1)).expect("from");
    let to = SoftwareBuffer::new(FrameSize::new(2, 1)).expect("to");
    let mut output = SoftwareBuffer::new(FrameSize::new(1, 1)).expect("output");
    assert!(crossfade_buffers_into(&from, &to, 5_000, &mut output).is_err());
    assert!(crossfade_buffers(&from, &to, 5).is_err());
}

#[test]
fn crossfade_easing_slows_start_and_end() {
    assert_eq!(eased_crossfade_progress(0), 0);
    assert_eq!(eased_crossfade_progress(10_000), 10_000);
    assert_eq!(eased_crossfade_progress(5_000), 5_000);

    let quarter = eased_crossfade_progress(2_500);
    let three_quarters = eased_crossfade_progress(7_500);
    assert!(
        quarter < 2_500,
        "expected eased quarter progress < 2500, got {quarter}"
    );
    assert!(
        three_quarters > 7_500,
        "expected eased three-quarter progress > 7500, got {three_quarters}"
    );
}

#[test]
fn easing_is_the_single_precision_curve() {
    for linear in 1..10_000u16 {
        let t = f32::from(linear) / 10_000.0;
        let eased = t * t * (3.0 - 2.0 * t);
        let expected = (eased * 10_000.0).round().clamp(0.0, 10_000.0) as u16;
        assert_eq!(eased_crossfade_progress(linear), expected, "at {linear}");
    }
    assert_eq!(eased_crossfade_progress(u16::MAX), 10_000);
}

#[test]
fn fading_in_parts_is_fading_as_a_whole() {
    let from: Vec<u8> = (0..64).collect();
    let to: Vec<u8> = (0..64).map(|byte| 255 - byte).collect();
    let weight = crossfade_weight(5_000);
    assert_eq!(weight, 128);
    let mut whole = vec![0u8; 64];
    blend_crossfade_pixels(&mut whole, &from, &to, weight);
    let mut parts = vec![0u8; 64];
    blend_crossfade_pixels(&mut parts[..20], &from[..20], &to[..20], weight);
    blend_crossfade_pixels(&mut parts[20..], &from[20..], &to[20..], weight);
    assert_eq!(whole, parts);
    assert!(crossfade_threads(1 << 24, 8) >= 1);
    assert_eq!(crossfade_chunk_len(64, 2) % 4, 0);
}

#[test]
fn blends_translucent_buffers() {
    let mut target = SoftwareBuffer::solid(FrameSize::new(1, 1), ClearColor::opaque(255, 128, 0))
        .expect("target");
    let overlay = SoftwareBuffer::solid(FrameSize::new(1, 1), ClearColor::rgba(255, 255, 255, 26))
        .expect("overlay");

    target.blend_from(&overlay).expect("blend should succeed");

    assert_eq!(target.pixels(), &[26, 141, 255, 255]);
}

#[test]
fn rejects_mismatched_buffer_sizes() {
    let mut target = SoftwareBuffer::new(FrameSize::new(1, 1)).expect("target");
    let overlay = SoftwareBuffer::new(FrameSize::new(2, 1)).expect("overlay");

    let error = target.blend_from(&overlay).expect_err("blend should fail");

    assert!(matches!(
        error,
        RendererError::BufferSizeMismatch {
            target: FrameSize {
                width: 1,
                height: 1
            },
            overlay: FrameSize {
                width: 2,
                height: 1
            },
        }
    ));
}

#[test]
fn renderer_errors_explain_themselves() {
    assert_eq!(
        RendererError::InvalidFrameSize(FrameSize::new(3, 4)).to_string(),
        "frame size FrameSize { width: 3, height: 4 } is invalid for ARGB8888 rendering"
    );
    assert_eq!(RendererError::EmptyFrame.to_string(), "frame size must not be empty");
    assert_eq!(
        RendererError::BufferSizeMismatch {
            target: FrameSize::new(1, 1),
            overlay: FrameSize::new(2, 1)
        }
        .to_string(),
        "buffer size mismatch: target FrameSize { width: 1, height: 1 }, overlay FrameSize { width: 2, height: 1 }"
    );
    assert_eq!(
        RendererError::BufferSlotsBusy.to_string(),
        "all SHM buffer slots are still in use by the compositor"
    );
    assert_eq!(RendererError::Io(String::from("gone")).to_string(), "gone");
    assert_eq!(RendererError::ShmPool(String::from("no pool")).to_string(), "no pool");
}

#[test]
fn channels_are_scaled_and_restored() {
    assert_eq!(premultiply_channel(200, 128), 100);
    assert_eq!(unpremultiply_channel(100, 128), 199);
    for channel in 0..=255u8 {
        assert_eq!(premultiply_channel(channel, 255), channel);
        assert_eq!(unpremultiply_channel(channel, 255), channel);
    }
    assert_eq!(unpremultiply_channel(9, 0), 0);
    assert_eq!(ClearColor::opaque(1, 2, 3).with_alpha(128).to_argb8888_bytes(), [2, 1, 1, 128]);
    let buffer = SoftwareBuffer::solid(FrameSize::new(1, 1), ClearColor::opaque(9, 8, 7)).unwrap();
    assert_eq!(buffer.to_rgba_bytes(), vec![9, 8, 7, 255]);
}

#[test]
fn required_pool_len_matches_frame_byte_len() {
    let size = FrameSize::new(64, 32);

    assert_eq!(required_pool_len(size).expect("byte len"), 64 * 32 * 4);
    assert!(matches!(required_pool_len(FrameSize::new(0, 32)), Err(RendererError::EmptyFrame)));
}

#[test]
fn reports_reserved_bytes_from_live_slots() {
    assert_eq!(reserved_bytes_for_slots(64 * 32 * 4, 2), 64 * 32 * 4 * 2);
}

#[test]
fn pool_growth_is_capped_to_two_frame_slots() {
    assert_eq!(MAX_BUFFER_SLOTS, 2);
}

#[test]
fn grows_while_under_the_slot_cap() {
    assert_eq!(choose_slot(&[], 0, MAX_BUFFER_SLOTS), SlotChoice::Grow);
    assert_eq!(choose_slot(&[false], 1, MAX_BUFFER_SLOTS), SlotChoice::Grow);
}

#[test]
fn reuses_the_first_released_slot() {
    assert_eq!(choose_slot(&[false, true], 2, MAX_BUFFER_SLOTS), SlotChoice::Reuse(1));
    assert_eq!(choose_slot(&[true, true], 2, MAX_BUFFER_SLOTS), SlotChoice::Reuse(0));
}

#[test]
fn skips_the_frame_rather_than_overwriting_a_busy_slot() {
    assert_eq!(choose_slot(&[false, false], 2, MAX_BUFFER_SLOTS), SlotChoice::Skip);
}

#[test]
fn pool_hands_out_slots_and_takes_them_back() {
    let size = FrameSize::new(2, 2);
    let mut pool = SurfaceBufferPool::new(size).expect("pool");
    assert_eq!(pool.slot_count(), 0);
    let first = pool.render_buffer(size).expect("first slot");
    assert_eq!((first.index, first.offset, first.pool_len), (0, 0, 16));
    let second = pool.render_buffer(size).expect("second slot");
    assert_eq!((second.index, second.offset, second.pool_len), (1, 16, 32));
    assert_eq!(pool.reserved_bytes(), 32);
    assert!(matches!(pool.render_buffer(size), Err(RendererError::BufferSlotsBusy)));
    first.release.mark_released(&mut pool);
    let picture = SoftwareBuffer::new(size).expect("picture");
    let again = pool.commit_buffer(&picture).expect("reused slot");
    assert_eq!((again.index, again.release), (0, ShmBufferRelease { slot_id: 0 }));
    assert!(matches!(pool.render_buffer(FrameSize::new(0, 2)), Err(RendererError::EmptyFrame)));
    let larger = pool.render_buffer_region(FrameSize::new(4, 2)).expect("larger frame");
    assert_eq!((larger.index, pool.slot_count()), (0, 1));
    assert_eq!(
        pool.region_damage(larger.release.slot_id, None, Rect::new(9, 9, 1, 1), FrameSize::new(4, 2)),
        None
    );
    assert_eq!(pool.render_buffer(FrameSize::new(4, 2)).expect("free again").index, 0);
    assert_eq!(
        pool.region_damage(7, None, Rect::new(3, 1, 5, 5), FrameSize::new(4, 2)),
        Some(Rect::new(3, 1, 1, 1))
    );
}

#[test]
fn rectangles_are_clipped_and_joined() {
    let rect = Rect::new(-2, 3, 10, 10);
    assert_eq!(rect.clipped_to(5, 5), Rect::new(0, 3, 5, 2));
    assert_eq!((rect.right(), rect.bottom()), (8, 13));
    assert_eq!(rect.inflated(2), Rect::new(-4, 1, 14, 14));
    assert_eq!(rect.union(Rect::new(9, 0, 1, 1)), Rect::new(-2, 0, 12, 13));
    assert!(Rect::new(0, 0, 0, 4).is_empty());
}

#[test]
fn converts_rgba_image_to_pixmap() {
    let image = RgbaPixels { width: 1, height: 1, data: vec![120, 80, 40, 255] };
    let pixmap = rgba_to_pixmap(image).expect("pixmap");

    assert_eq!(pixmap.data(), &[120, 80, 40, 255]);
}

#[test]
fn translucent_pixels_are_premultiplied_in_pixmaps() {
    let image = RgbaPixels { width: 1, height: 1, data: vec![200, 100, 0, 128] };
    let pixmap = rgba_to_pixmap(image).expect("pixmap");
    assert_eq!(pixmap.data(), &[100, 50, 0, 128]);
}

#[test]
fn prepares_avatar_images_as_bounded_square_sources() {
    let image = RgbaPixels {
        width: 1600,
        height: 1200,
        data: [120, 80, 40, 255].repeat(1600 * 1200),
    };
    let prepared = prepare_avatar_image(image);

    assert_eq!(prepared.width, MAX_PREPARED_AVATAR_SIZE);
    assert_eq!(prepared.height, MAX_PREPARED_AVATAR_SIZE);
    assert_eq!(&prepared.data[..4], &[120, 80, 40, 255]);
}

#[test]
fn prepares_small_avatar_images_without_upscaling() {
    let image = RgbaPixels {
        width: 320,
        height: 240,
        data: [120, 80, 40, 255].repeat(320 * 240),
    };
    let prepared = prepare_avatar_image(image);

    assert_eq!(prepared.width, 240);
    assert_eq!(prepared.height, 240);
}

#[test]
fn avatars_are_cut_from_the_middle() {
    let data: Vec<u8> = (0..4u8).flat_map(|column| [column, 0, 0, 255]).collect();
    let prepared = prepare_avatar_image(RgbaPixels { width: 4, height: 1, data });
    assert_eq!((prepared.width, prepared.height), (1, 1));
    assert_eq!(prepared.data, vec![1, 0, 0, 255]);
}

#[test]
fn round_trips_cached_avatar_pixmap() {
    let data = [120, 80, 40, 255].repeat(4);
    let pixmap = rgba_to_pixmap(RgbaPixels { width: 2, height: 2, data }).expect("pixmap");
    let stored = AvatarAsset::Image(pixmap.clone()).to_cache().expect("store");
    let cached = match AvatarAsset::from_cache(&stored).expect("load").expect("cached avatar") {
        AvatarAsset::Image(cached) => cached,
        AvatarAsset::Placeholder => panic!("cached avatar"),
    };
    assert_eq!(cached.width(), pixmap.width());
    assert_eq!(cached.height(), pixmap.height());
    assert_eq!(cached.data(), pixmap.data());
    assert!(AvatarAsset::placeholder().to_cache().is_none());
    assert!(matches!(AvatarAsset::from_cache(&stored[..10]), Err(RendererError::Io(_))));
}

#[test]
fn avatar_pictures_are_decoded() {
    let file: Vec<u8> = vec![
        137, 80, 78, 71, 13, 10, 26, 10, 0, 0, 0, 13, 73, 72, 68, 82,
        0, 0, 0, 1, 0, 0, 0, 1, 8, 2, 0, 0, 0, 144, 119, 83,
        222, 0, 0, 0, 12, 73, 68, 65, 84, 120, 156, 99, 224, 18, 145, 3,
        0, 0, 104, 0, 61, 84, 8, 163, 247, 0, 0, 0, 0, 73, 69, 78,
        68, 174, 66, 96, 130,
    ];
    match AvatarAsset::decode(&file).expect("picture") {
        AvatarAsset::Image(pixmap) => assert_eq!(pixmap.data(), &[10, 20, 30, 255]),
        AvatarAsset::Placeholder => panic!("a picture was expected"),
    }
    assert!(matches!(AvatarAsset::decode(b"no picture"), Err(RendererError::Image(_))));
}

#[test]
fn avatar_keys_tell_pictures_apart() {
    let one = AvatarAsset::Image(
        rgba_to_pixmap(RgbaPixels { width: 1, height: 1, data: vec![1, 2, 3, 255] }).unwrap(),
    );
    let same = AvatarAsset::Image(
        rgba_to_pixmap(RgbaPixels { width: 1, height: 1, data: vec![1, 2, 3, 255] }).unwrap(),
    );
    let other = AvatarAsset::Image(
        rgba_to_pixmap(RgbaPixels { width: 1, height: 1, data: vec![9, 2, 3, 255] }).unwrap(),
    );
    assert_eq!(one.cache_key(), same.cache_key());
    assert_ne!(one.cache_key(), other.cache_key());
    assert_ne!(one.cache_key(), AvatarAsset::placeholder().cache_key());
    assert!(image_key(FrameSize::new(3, 4), 255).contains("3x4"));
}

#[test]
fn placeholder_padding_uses_responsive_default_until_overridden() {
    assert_eq!(style_placeholder_padding(96, None), 9);
    assert_eq!(style_placeholder_padding(96, Some(12)), 12);
    assert_eq!(style_placeholder_padding(96, Some(80)), 32);
}

#[test]
fn avatar_radius_defaults_to_circle_and_clamps_to_half_size() {
    assert_eq!(resolved_avatar_radius(96, None), 48);
    assert_eq!(resolved_avatar_radius(96, Some(18)), 18);
    assert_eq!(resolved_avatar_radius(96, Some(80)), 48);
    assert_eq!(resolved_avatar_radius(96, Some(-4)), 0);
}

#[test]
fn avatars_are_planned_inside_their_ring() {
    let style = AvatarStyle::new(
        ClearColor::rgba(255, 255, 255, 36),
        ClearColor::opaque(240, 244, 250),
    )
    .with_ring(BorderStyle::new(ClearColor::rgba(255, 255, 255, 72), 2));
    let plan = plan_avatar(80, 20, 96, style).expect("plan");
    assert_eq!(plan.outline, AvatarOutline::Circle { center_x: 80, center_y: 68, radius: 48 });
    assert_eq!((plan.content_left, plan.content_top, plan.content_size), (36, 24, 88));
    assert_eq!(plan.content_radius, 44);
    let squared = style
        .with_radius(10)
        .with_placeholder_padding(3)
        .with_shadow(ShadowStyle::new(ClearColor::opaque(0, 0, 0), 1, 1));
    assert_eq!(
        plan_avatar(80, 20, 96, squared).expect("plan").outline,
        AvatarOutline::Pill { rect: Rect::new(32, 20, 96, 96), radius: 10 }
    );
    assert_eq!(plan_avatar(80, 20, 0, style), None);
}

#[test]
fn round_trips_decoded_source_cache() {
    let image = RgbaPixels { width: 1, height: 1, data: vec![10, 20, 30, 255] };
    let stored = encode_source_cache(&image);
    let loaded = decode_source_cache(&stored).expect("load").expect("cached image");
    assert_eq!((loaded.width, loaded.height), (1, 1));
    assert_eq!(loaded.data, vec![10, 20, 30, 255]);
    assert!(decode_source_cache(b"other file, not a cache").expect("load").is_none());
    assert!(decode_source_cache(&stored[..stored.len() - 1]).is_err());
}

#[test]
fn cache_files_are_named_by_their_source() {
    assert_eq!(stable_hash(""), 0xcbf2_9ce4_8422_2325);
    assert_eq!(stable_hash("a"), 0xaf63_dc4c_8601_ec8c);
    let name = source_cache_name("/wall.png", 10, 20);
    assert_eq!(name, format!("{:016x}.rgba", stable_hash("/wall.png:10:20")));
    assert_ne!(name, source_cache_name("/wall.png", 10, 21));
    assert_eq!(
        avatar_cache_name("/me.png", 1, 2, 512),
        format!("{:016x}.rgba", stable_hash("/me.png:1:2:512"))
    );
    let home = FilePath::new("/home/me");
    let root = cache_root(None, None, Some(home), "avatars").expect("root");
    assert_eq!(root, FilePath::new("/home/me/.cache/veila/avatars"));
    assert_eq!(
        temporary_cache_path(&root.join("x.rgba"), "avatar"),
        Some(FilePath::new("/home/me/.cache/veila/avatars/.x.rgba.tmp"))
    );
    let unreadable = FilePath { bytes: b"/cache/\xff.rgba".to_vec() };
    assert_eq!(
        temporary_cache_path(&unreadable, "avatar"),
        Some(FilePath::new("/cache/.avatar.tmp"))
    );
    assert_eq!(temporary_cache_path(&FilePath::new("/"), "avatar"), None);
}

#[test]
fn reads_icon_outlines() {
    let svg = "<svg viewBox=\"0 0 640 512\"><path d=\"M1 2 l3-4 C1,2 3,4 5.5,6z\"/></svg>";
    let data = extract_path_data(svg).expect("path data");
    assert_eq!(data, "M1 2 l3-4 C1,2 3,4 5.5,6z");
    assert_eq!(extract_viewbox(svg).expect("viewbox"), vec!["0", "0", "640", "512"]);
    assert_eq!(extract_path_data("<svg/>"), None);
    let segments = parse_path_data("M1 2 L3-4 C1,2 3,4 5.5,6Z").expect("segments");
    let kinds: Vec<SegmentKind> = segments.iter().map(|segment| segment.kind).collect();
    assert_eq!(
        kinds,
        vec![SegmentKind::MoveTo, SegmentKind::LineTo, SegmentKind::CubicTo, SegmentKind::Close]
    );
    assert_eq!(segments[1].numbers, vec!["3", "-4"]);
    assert_eq!(segments[2].numbers[4], "5.5");
    assert_eq!(parse_path_data("M1 2 Q1 2 3 4"), None);
}

#[test]
fn parts_of_a_fade_hold_whole_pixels() {
    assert_eq!(crossfade_chunk_len(100, 2), 52);
    assert_eq!(crossfade_chunk_len(96, 2), 48);
    assert_eq!(crossfade_chunk_len(9, 4), 4);
}

#[test]
fn drawing_through_a_view_reaches_the_memory() {
    let size = FrameSize::new(2, 1);
    let mut memory = vec![0u8; 8];
    let color = ClearColor::opaque(1, 2, 3);
    {
        let mut view = SoftwareBufferView::new(size, &mut memory).expect("view");
        view.clear(color);
    }
    assert_eq!(memory, vec![3, 2, 1, 255, 3, 2, 1, 255]);
    let overlay = SoftwareBuffer::solid(size, ClearColor::opaque(9, 8, 7)).expect("overlay");
    {
        let mut view = SoftwareBufferView::new(size, &mut memory).expect("view");
        view.blend_from(&overlay).expect("blend");
    }
    assert_eq!(memory, overlay.pixels().to_vec());
}

#[test]
fn scaled_channels_come_through() {
    for alpha in 1..=255u8 {
        for channel in 0..=alpha {
            let straight = unpremultiply_channel(channel, alpha);
            assert_eq!(premultiply_channel(straight, alpha), channel);
        }
    }
}

#[test]
fn fades_never_turn_back() {
    let mut last = 0;
    for progress in 0..=10_000 {
        let weight = crossfade_weight(progress);
        assert!(weight >= last);
        last = weight;
        let eased = eased_crossfade_progress(progress);
        assert!(progress > 5_000 || eased <= progress);
        assert!(progress < 5_000 || eased >= progress);
    }
    assert_eq!(last, 256);
}

#[test]
fn pictures_make_avatars() {
    let image = RgbaPixels { width: 1, height: 1, data: vec![200, 100, 50, 128] };
    let AvatarAsset::Image(pixmap) = AvatarAsset::from_picture(image).expect("avatar") else {
        panic!("a picture makes an image");
    };
    assert_eq!(pixmap.data(), &[100, 50, 25, 128]);
    let empty = RgbaPixels { width: 0, height: 0, data: vec![] };
    assert!(matches!(
        AvatarAsset::from_picture(empty),
        Err(RendererError::InvalidFrameSize(_))
    ));
}
