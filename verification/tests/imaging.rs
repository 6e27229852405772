use image_rs::error::DomainError;
use image_rs::imaging::{
    anchor_xy, check_crop, check_same_size, corner_radius, orientation_plan, overlay_regions,
    resize_kernel, resize_target, round_mask, shadow_color, Kernel, OrientStep, PixelRect,
    ResizeTarget,
};
use image_rs::ops::{ResizeMode, ResizeSpec};
use image_rs::value_objects::{Anchor, Color, Interpolation, Rect};

#[test]
fn resize_targets() {
    let s = ResizeSpec::new(Some(100), None, ResizeMode::Fit).unwrap();
    assert_eq!(resize_target(&s).unwrap(), ResizeTarget::Within { max_width: 100, max_height: i32::MAX });
    let s = ResizeSpec::new(Some(100), Some(50), ResizeMode::Fill).unwrap();
    assert_eq!(resize_target(&s).unwrap(), ResizeTarget::Exact { width: 100, height: 50 });
    let s = ResizeSpec::new(None, Some(50), ResizeMode::Exact).unwrap();
    match resize_target(&s) {
        Err(DomainError::InvalidArgument(m)) => assert_eq!(m, "exact resize needs width"),
        _ => panic!("expected invalid argument"),
    }
    let s = ResizeSpec::new(Some(10), None, ResizeMode::Fill).unwrap();
    match resize_target(&s) {
        Err(DomainError::InvalidArgument(m)) => assert_eq!(m, "fill resize needs height"),
        _ => panic!("expected invalid argument"),
    }
}

#[test]
fn auto_kernel_depends_on_direction() {
    assert_eq!(resize_kernel(Interpolation::Auto, 100, 100, 50, 50), Kernel::Area);
    assert_eq!(resize_kernel(Interpolation::Auto, 100, 100, 200, 50), Kernel::Linear);
    assert_eq!(resize_kernel(Interpolation::Cubic, 1, 1, 1, 1), Kernel::Cubic);
}

#[test]
fn crop_must_fit() {
    let r = Rect::new(2, 2, 3, 3).unwrap();
    assert!(check_crop(&r, 5, 5).is_ok());
    match check_crop(&r, 4, 10) {
        Err(DomainError::OpFailed { op, message }) => {
            assert_eq!(op, "crop");
            assert_eq!(message, "rect out of bounds for 4x10");
        }
        _ => panic!("expected a failed op"),
    }
    let r = Rect::new(u32::MAX, 0, 1, 1).unwrap();
    assert!(check_crop(&r, u32::MAX, 1).is_err());
}

#[test]
fn orientation_plans() {
    assert!(orientation_plan(0).unwrap().is_empty());
    assert!(orientation_plan(1).unwrap().is_empty());
    assert_eq!(orientation_plan(3).unwrap(), vec![OrientStep::Rotate180]);
    assert_eq!(
        orientation_plan(5).unwrap(),
        vec![OrientStep::Rotate90Clockwise, OrientStep::FlipHorizontal]
    );
    assert_eq!(orientation_plan(8).unwrap(), vec![OrientStep::Rotate90CounterClockwise]);
    match orientation_plan(9) {
        Err(DomainError::OpFailed { op, message }) => {
            assert_eq!(op, "auto_orient");
            assert_eq!(message, "invalid orientation: 9");
        }
        _ => panic!("expected a failed op"),
    }
}

#[test]
fn corner_radius_is_clamped() {
    assert_eq!(corner_radius(24, 100, 100), 24);
    assert_eq!(corner_radius(80, 100, 60), 30);
    assert_eq!(corner_radius(5, 1, 100), 0);
}

#[test]
fn round_mask_shapes() {
    let m = round_mask(100, 60, 10);
    assert_eq!(m.bands[0], PixelRect { x: 10, y: 0, width: 80, height: 60 });
    assert_eq!(m.bands[1], PixelRect { x: 0, y: 10, width: 100, height: 40 });
    assert_eq!((m.discs[3].cx, m.discs[3].cy, m.discs[3].radius), (89, 49, 10));
}

#[test]
fn anchors_place_overlays() {
    assert_eq!(anchor_xy(Anchor::TopLeft, 100, 80, 20, 10, 16), (16, 16));
    assert_eq!(anchor_xy(Anchor::BottomRight, 100, 80, 20, 10, 16), (64, 54));
    assert_eq!(anchor_xy(Anchor::Center, 100, 80, 21, 10, 16), (39, 35));
    // centring rounds toward zero when the overlay is larger
    assert_eq!(anchor_xy(Anchor::Top, 10, 10, 13, 1, 0), (-1, 0));
}

#[test]
fn overlays_are_clipped_to_the_image() {
    let (d, s) = overlay_regions(100, 80, 30, 20, 80, 70).unwrap();
    assert_eq!(d, PixelRect { x: 80, y: 70, width: 20, height: 10 });
    assert_eq!(s, PixelRect { x: 0, y: 0, width: 20, height: 10 });
    let (d, s) = overlay_regions(100, 80, 30, 20, -5, 0).unwrap();
    assert_eq!(d, PixelRect { x: 0, y: 0, width: 30, height: 20 });
    assert_eq!(s, PixelRect { x: 5, y: 0, width: 30, height: 20 });
    assert!(overlay_regions(100, 80, 30, 20, 100, 0).is_none());
}

#[test]
fn text_shadow_is_translucent_black() {
    assert_eq!(shadow_color(Color::rgba(10, 20, 30, 255)), Color::rgba(0, 0, 0, 180));
    assert_eq!(shadow_color(Color::rgba(10, 20, 30, 100)), Color::rgba(0, 0, 0, 70));
}

#[test]
fn diff_needs_equal_sizes() {
    assert!(check_same_size(4, 3, 4, 3).is_ok());
    match check_same_size(4, 3, 5, 3) {
        Err(DomainError::InvalidArgument(m)) => {
            assert_eq!(m, "diff requires same dimensions: before=4x3, after=5x3")
        }
        _ => panic!("expected invalid argument"),
    }
}

#[test]
fn mask_shapes_lie_inside_the_image() {
    let (w, h) = (40, 30);
    let m = round_mask(w, h, corner_radius(100, w, h));
    for b in m.bands {
        assert!(b.x >= 0 && b.y >= 0 && b.x + b.width <= w as i32 && b.y + b.height <= h as i32);
    }
    for d in m.discs {
        assert!(d.cx >= 0 && d.cx < w as i32 && d.cy >= 0 && d.cy < h as i32);
    }
}
