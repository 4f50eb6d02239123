use craftmine::atlas::{pack, AtlasRect, SourceImage};
use craftmine::AtlasError;

fn img(id: &str, w: u32, h: u32) -> SourceImage {
    SourceImage { id: String::from(id), width: w, height: h }
}

#[test]
fn two_images_share_a_shelf() {
    let layout = pack(&vec![img("a", 16, 16), img("b", 16, 16)], 32, 16).unwrap();
    assert_eq!(layout.width, 32);
    assert_eq!(layout.height, 16);
    assert_eq!(layout.rects.len(), 2);
    assert_eq!(layout.rects[0].0, "a");
    assert_eq!(layout.rects[0].1, AtlasRect { x: 0, y: 0, w: 16, h: 16 });
    assert_eq!(layout.rects[1].0, "b");
    assert_eq!(layout.rects[1].1, AtlasRect { x: 16, y: 0, w: 16, h: 16 });
}

#[test]
fn full_row_wraps_to_new_shelf() {
    let layout = pack(&vec![img("a", 16, 16), img("b", 16, 16), img("c", 16, 16)], 32, 64)
        .unwrap();
    assert_eq!(layout.rects[2].1, AtlasRect { x: 0, y: 16, w: 16, h: 16 });
}

#[test]
fn tall_image_grows_the_shelf() {
    let layout = pack(&vec![img("a", 8, 32), img("b", 8, 8), img("c", 16, 16)], 16, 64)
        .unwrap();
    assert_eq!(layout.rects[0].1, AtlasRect { x: 0, y: 0, w: 8, h: 32 });
    assert_eq!(layout.rects[1].1, AtlasRect { x: 8, y: 0, w: 8, h: 8 });
    // The third image no longer fits the row; the new shelf starts below the
    // tallest image of the first.
    assert_eq!(layout.rects[2].1, AtlasRect { x: 0, y: 32, w: 16, h: 16 });
}

#[test]
fn rects_are_disjoint_and_in_bounds() {
    let images = vec![
        img("a", 16, 16),
        img("b", 8, 24),
        img("c", 32, 8),
        img("d", 16, 16),
        img("e", 4, 4),
    ];
    let layout = pack(&images, 48, 64).unwrap();
    for (i, (_, a)) in layout.rects.iter().enumerate() {
        assert!(a.x + a.w <= layout.width && a.y + a.h <= layout.height);
        for (_, b) in layout.rects.iter().skip(i + 1) {
            let separated = a.x + a.w <= b.x
                || b.x + b.w <= a.x
                || a.y + a.h <= b.y
                || b.y + b.h <= a.y;
            assert!(separated);
        }
    }
}

#[test]
fn too_wide_image_overflows() {
    assert_eq!(pack(&vec![img("a", 32, 8)], 16, 64).unwrap_err(), AtlasError::AtlasOverflow);
}

#[test]
fn out_of_height_overflows() {
    assert_eq!(
        pack(&vec![img("a", 16, 16), img("b", 16, 16)], 16, 16).unwrap_err(),
        AtlasError::AtlasOverflow
    );
}

#[test]
fn packed_rect_found_by_lookup() {
    let layout = pack(&vec![img("a", 16, 16), img("b", 8, 8)], 32, 16).unwrap();
    assert_eq!(layout.uv_rect("b"), Some(AtlasRect { x: 16, y: 0, w: 8, h: 8 }));
    assert_eq!(layout.uv_rect("missing"), None);
}

#[test]
fn zero_size_image_takes_no_room() {
    let layout = pack(&vec![img("z", 0, 0), img("a", 16, 16)], 16, 16).unwrap();
    assert_eq!(layout.rects[0].1, AtlasRect { x: 0, y: 0, w: 0, h: 0 });
    assert_eq!(layout.rects[1].1, AtlasRect { x: 0, y: 0, w: 16, h: 16 });
}

#[test]
fn empty_input_packs_empty() {
    let layout = pack(&vec![], 16, 16).unwrap();
    assert_eq!(layout.rects.len(), 0);
}
