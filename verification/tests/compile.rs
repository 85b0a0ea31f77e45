use kivori::blob::{
    assemble_mascot_blob, crop_layer, crop_sheet, frame_blob, layer_svg, mascot_layer_ids,
    pack_alpha, within_pack_budget, BlobBuilder, LayerKind, LayerRole, Point, PoolRef, Size,
    EXPRESSION_FRAMES, MASCOT_PACK_BUDGET,
};
use kivori::model::{CompanionState, Rgb565};
use kivori::text::find_from;
use kivori::model::DeviceProfile;

fn builder() -> BlobBuilder {
    BlobBuilder::new(DeviceProfile { width: 240, height: 240 })
}

#[test]
fn alpha4_packs_even_pixels_low_odd_pixels_high_including_odd_count() {
    let mut builder = builder();
    let id = builder.add_masked_bitmap(Size { w: 3, h: 1 }, 1, &[0; 6], &[0, 17, 85]);
    assert_eq!(builder.bitmap_alpha(id).unwrap(), vec![0x10, 0x05]);
}

#[test]
fn masked_bitmap_dedup_includes_alpha_and_dimensions() {
    let mut builder = builder();
    let pixels = [0x12, 0x34, 0x56, 0x78];
    let alpha = [255, 0];
    let same = builder.add_masked_bitmap(Size { w: 2, h: 1 }, 1, &pixels, &alpha);
    let duplicate = builder.add_masked_bitmap(Size { w: 2, h: 1 }, 1, &pixels, &alpha);
    let different_alpha = builder.add_masked_bitmap(Size { w: 2, h: 1 }, 1, &pixels, &[255, 17]);
    let different_dimensions = builder.add_masked_bitmap(Size { w: 1, h: 2 }, 1, &pixels, &alpha);
    assert_eq!(same, duplicate);
    assert_ne!(same, different_alpha);
    assert_ne!(same, different_dimensions);
    assert_eq!(builder.bitmap_count(), 3);
}

#[test]
fn an_opaque_and_a_masked_bitmap_of_the_same_pixels_are_distinct() {
    let mut builder = builder();
    let pixels = [1, 2, 3, 4];
    let opaque = builder.add_bitmap(Size { w: 2, h: 1 }, 1, &pixels);
    let masked = builder.add_masked_bitmap(Size { w: 2, h: 1 }, 1, &pixels, &[255, 255]);
    assert_ne!(opaque, masked);
    assert_eq!(builder.add_bitmap(Size { w: 2, h: 1 }, 1, &pixels), opaque);
    assert_eq!(builder.bitmap_alpha(opaque), None);
    let entry = builder.bitmap(opaque).unwrap();
    assert_eq!(entry.data, PoolRef { offset: 0, len: 4 });
    assert_eq!(builder.pool_slice(entry.data), pixels.to_vec());
    assert!(builder.bitmap(9).is_none());
}

#[test]
fn the_pool_holds_pixels_then_packed_alpha() {
    let mut builder = builder();
    let id = builder.add_masked_bitmap(Size { w: 1, h: 1 }, 2, &[9, 9, 8, 8], &[34, 51]);
    let entry = builder.bitmap(id).unwrap();
    assert_eq!(entry.frames, 2);
    assert_eq!(entry.data, PoolRef { offset: 0, len: 4 });
    assert_eq!(entry.alpha, Some(PoolRef { offset: 4, len: 1 }));
    assert_eq!(builder.bitmap_alpha(id).unwrap(), vec![0x32]);
}

#[test]
fn alpha_samples_round_down_to_sixteen_levels() {
    assert_eq!(pack_alpha(&[255, 254, 16, 17]), vec![0xEF, 0x10]);
    assert!(pack_alpha(&[]).is_empty());
}

#[test]
fn a_layer_svg_keeps_the_defs_and_uses_one_element() {
    let source = "<svg><defs><g id=\"body\"/><g id=\"eyes-idle\"/></defs><use href=\"#body\"/></svg>";
    let svg = layer_svg(source, "eyes-idle");
    assert_eq!(
        svg,
        "<svg xmlns=\"http://www.w3.org/2000/svg\" width=\"240\" height=\"240\" viewBox=\"0 0 240 240\"><defs><g id=\"body\"/><g id=\"eyes-idle\"/></defs><use href=\"#eyes-idle\"/></svg>"
    );
    // Only the first block counts, up to its first closing tag.
    let two = "<defs>A</defs><defs>B</defs>";
    assert!(layer_svg(two, "x").contains("<defs>A</defs><use"));
}

#[test]
fn find_from_gives_the_first_occurrence_at_or_after_the_start() {
    let hay: Vec<char> = "xxabab".chars().collect();
    let ab: Vec<char> = "ab".chars().collect();
    assert_eq!(find_from(&hay, &ab, 0), Some(2));
    assert_eq!(find_from(&hay, &ab, 3), Some(4));
    assert_eq!(find_from(&hay, &ab, 5), None);
    assert_eq!(find_from(&hay, &[], 6), Some(6));
    assert_eq!(find_from(&hay, &[], 7), None);
}

#[test]
fn cropping_keeps_the_window_row_by_row() {
    let mut pixels = Vec::new();
    let mut alpha = Vec::new();
    for y in 0..240u32 {
        for x in 0..240u32 {
            pixels.push(x as u8);
            pixels.push(y as u8);
            alpha.push((x + y) as u8);
        }
    }
    let (p, a) = crop_layer(&pixels, &alpha, 2, 3, 4, 2);
    assert_eq!(p, vec![2, 3, 3, 3, 4, 3, 5, 3, 2, 4, 3, 4, 4, 4, 5, 4]);
    assert_eq!(a, vec![5, 6, 7, 8, 6, 7, 8, 9]);
    let (p, a) = crop_layer(&pixels, &alpha, 28, 48, 184, 160);
    assert_eq!(p.len(), 184 * 160 * 2);
    assert_eq!(a.len(), 184 * 160);
    assert_eq!(&p[..2], &[28, 48]);
    assert_eq!(a[a.len() - 1], (211 + 207) as u8);
}

#[test]
fn every_state_gets_a_five_layer_mascot_scene() {
    let mut b = builder();
    let states = [
        CompanionState::Booting,
        CompanionState::Idle,
        CompanionState::Happy,
        CompanionState::Busy,
        CompanionState::Sleeping,
        CompanionState::Offline,
    ];
    for state in states {
        b.add_mascot_scene(state, 0, 1, 2, 3);
    }
    assert_eq!(b.scenes().len(), 6);
    for (scene, state) in b.scenes().iter().zip(states) {
        assert_eq!(scene.id, state);
        assert_eq!(scene.frame_count, 120);
        assert_eq!(scene.fps, 30);
        assert_eq!(scene.background, Rgb565::from_rgb888(10, 14, 24));
        let roles: Vec<LayerRole> = scene.layers.iter().map(|l| l.role).collect();
        assert_eq!(
            roles,
            [LayerRole::Body, LayerRole::Cap, LayerRole::Eyes, LayerRole::Eyes, LayerRole::Mouth]
        );
        let geometry: Vec<(i16, i16, u16, u16, u16)> = scene
            .layers
            .iter()
            .map(|l| match l.kind {
                LayerKind::Sprite { asset, frame_size } => {
                    (l.origin.x, l.origin.y, frame_size.w, frame_size.h, asset)
                }
            })
            .collect();
        assert_eq!(
            geometry,
            [
                (44, 88, 152, 118, 0),
                (42, 56, 156, 112, 1),
                (88, 96, 32, 40, 2),
                (120, 96, 32, 40, 2),
                (108, 139, 24, 11, 3),
            ]
        );
        for l in &scene.layers {
            assert_eq!(l.keyframes.len(), 1);
            assert_eq!(l.keyframes[0].at_ms, 0);
            assert_eq!(l.keyframes[0].offset, Point { x: 0, y: 0 });
            assert!(l.keyframes[0].visible);
        }
    }
    assert_eq!(b.bitmap_count(), 0);
}

#[test]
fn a_full_sprite_scene_is_one_still_full_frame_layer() {
    let mut b = builder();
    b.add_full_sprite_scene(CompanionState::Idle, Rgb565(0x1234), 7);
    let scene = &b.scenes()[0];
    assert_eq!((scene.fps, scene.frame_count), (1, 1));
    assert_eq!(scene.background, Rgb565(0x1234));
    assert_eq!(scene.layers.len(), 1);
    assert_eq!(scene.layers[0].role, LayerRole::Static);
    assert_eq!(scene.layers[0].origin, Point { x: 0, y: 0 });
    assert_eq!(
        scene.layers[0].kind,
        LayerKind::Sprite { asset: 7, frame_size: Size { w: 240, h: 240 } }
    );
}

/// A full-frame layer whose pixel bytes and alpha encode their own position, with a per-layer
/// tag, so every crop is recognisable.
fn layer(tag: u8) -> (Vec<u8>, Vec<u8>) {
    let pixels: Vec<u8> = (0..240 * 240 * 2).map(|i: usize| (i % 251) as u8 ^ tag).collect();
    let alpha: Vec<u8> = (0..240 * 240).map(|i: usize| (i % 253) as u8 ^ tag).collect();
    (pixels, alpha)
}

fn expected_crop(l: &(Vec<u8>, Vec<u8>), x: usize, y: usize, w: usize, h: usize) -> (Vec<u8>, Vec<u8>) {
    let mut p = Vec::new();
    let mut a = Vec::new();
    for row in y..y + h {
        p.extend_from_slice(&l.0[(row * 240 + x) * 2..(row * 240 + x + w) * 2]);
        a.extend_from_slice(&l.1[row * 240 + x..row * 240 + x + w]);
    }
    (p, a)
}

#[test]
fn the_mascot_pack_has_four_bitmaps_and_six_five_layer_scenes() {
    let body = layer(1);
    let cap = layer(2);
    let eyes: Vec<_> = (0..7u8).map(|k| layer(10 + k)).collect();
    let mouths: Vec<_> = (0..7u8).map(|k| layer(20 + k)).collect();
    let b = assemble_mascot_blob(
        DeviceProfile { width: 240, height: 240 },
        body.clone(),
        cap.clone(),
        eyes.clone(),
        mouths.clone(),
    );
    assert_eq!(b.bitmap_count(), 4, "one base + one cap + one eye sheet + one mouth sheet");
    let sizes: Vec<(u16, u16, u16)> = (0..4u16)
        .map(|id| {
            let e = b.bitmap(id).unwrap();
            (e.size.w, e.size.h, e.frames)
        })
        .collect();
    assert_eq!(sizes, vec![(152, 118, 1), (156, 112, 1), (32, 40, 7), (24, 11, 7)]);

    let body_entry = b.bitmap(0).unwrap();
    let (bp, ba) = expected_crop(&body, 44, 88, 152, 118);
    assert_eq!(b.pool_slice(body_entry.data), bp);
    assert_eq!(b.bitmap_alpha(0).unwrap(), pack_alpha(&ba));

    let mut ep = Vec::new();
    for e in &eyes {
        ep.extend(expected_crop(e, 88, 96, 32, 40).0);
    }
    assert_eq!(b.pool_slice(b.bitmap(2).unwrap().data), ep, "eye frames stack in order");

    let scenes = b.scenes();
    let ids: Vec<CompanionState> = scenes.iter().map(|s| s.id).collect();
    assert_eq!(
        ids,
        vec![
            CompanionState::Booting,
            CompanionState::Idle,
            CompanionState::Happy,
            CompanionState::Busy,
            CompanionState::Sleeping,
            CompanionState::Offline
        ]
    );
    for scene in scenes {
        assert_eq!(scene.layers.len(), 5);
        assert_eq!(scene.frame_count, 120);
        assert_eq!(scene.fps, 30);
        let assets: Vec<u16> = scene
            .layers
            .iter()
            .map(|l| match l.kind {
                LayerKind::Sprite { asset, .. } => asset,
            })
            .collect();
        assert_eq!(assets, vec![0, 1, 2, 2, 3]);
    }
}

#[test]
fn a_blob_is_header_manifest_then_pool() {
    let blob = frame_blob(0x4B56_4F41, 3, &[0xAA, 0xBB], &[1, 2, 3]);
    assert_eq!(
        blob,
        vec![
            0x41, 0x4F, 0x56, 0x4B, 3, 0, 0, 0, 2, 0, 0, 0, 3, 0, 0, 0, 0xAA, 0xBB, 1, 2, 3
        ]
    );
}

#[test]
fn the_pack_budget_is_128_kib() {
    assert!(within_pack_budget(131_072));
    assert!(!within_pack_budget(131_073));
    assert_eq!(MASCOT_PACK_BUDGET, 128 * 1024);
}

#[test]
fn the_mascot_layers_are_named_in_assembly_order() {
    let ids = mascot_layer_ids();
    assert_eq!(ids.len(), 2 + 2 * EXPRESSION_FRAMES);
    assert_eq!(ids[0], "body");
    assert_eq!(ids[1], "cap");
    assert_eq!(ids[2], "eyes-booting");
    assert_eq!(ids[8], "eyes-affectionate");
    assert_eq!(ids[9], "mouth-booting");
    assert_eq!(ids[15], "mouth-laughing");
}

#[test]
fn a_sheet_stacks_the_same_window_of_each_layer() {
    let layers = vec![layer(3), layer(4)];
    let (p, a) = crop_sheet(&layers, 5, 6, 2, 3);
    let first = expected_crop(&layers[0], 5, 6, 2, 3);
    let second = expected_crop(&layers[1], 5, 6, 2, 3);
    assert_eq!(p, [first.0, second.0].concat());
    assert_eq!(a, [first.1, second.1].concat());
}
