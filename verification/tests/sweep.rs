use slitscan::ratio::Ratio;
use slitscan::sweep::{Cover, Sweep};

const FIELD: (u32, u32) = (8, 4);

/// Every position, exactly once, in order, and then again from the top.
fn walk(sweep: Sweep, frames: u64) -> Vec<(u32, u32, u32, u32)> {
    (0..frames).map(|step| sweep.line(FIELD, step)).collect()
}

#[test]
fn a_sideways_sweep_writes_one_column_and_wraps_at_the_edge() {
    let lines = walk(Sweep::LeftToRight, 10);
    assert!(lines.iter().all(|&(_, y, w, h)| (y, w, h) == (0, 1, 4)));
    let xs: Vec<u32> = lines.iter().map(|&(x, ..)| x).collect();
    // Eight columns, then back to the first: the wrap is the whole of the
    // ninth frame's behaviour.
    assert_eq!(xs, [0, 1, 2, 3, 4, 5, 6, 7, 0, 1]);
}

#[test]
fn a_downward_sweep_writes_one_row_and_wraps_at_the_bottom() {
    let lines = walk(Sweep::TopToBottom, 6);
    assert!(lines.iter().all(|&(x, _, w, h)| (x, w, h) == (0, 8, 1)));
    let ys: Vec<u32> = lines.iter().map(|&(_, y, ..)| y).collect();
    assert_eq!(ys, [0, 1, 2, 3, 0, 1]);
}

#[test]
fn the_reversed_sweeps_are_the_forward_ones_backwards() {
    for (forward, back) in [
        (Sweep::LeftToRight, Sweep::RightToLeft),
        (Sweep::TopToBottom, Sweep::BottomToTop),
    ] {
        let span = forward.span(FIELD) as u64;
        for step in 0..span * 2 {
            assert_eq!(
                back.line(FIELD, step),
                forward.line(FIELD, span - 1 - step % span),
                "{back:?} at {step}"
            );
        }
    }
}

#[test]
fn a_sweep_touches_every_line_of_the_field_before_repeating() {
    for sweep in [
        Sweep::LeftToRight,
        Sweep::RightToLeft,
        Sweep::TopToBottom,
        Sweep::BottomToTop,
    ] {
        let span = sweep.span(FIELD);
        let mut seen: Vec<(u32, u32, u32, u32)> = walk(sweep, span as u64);
        seen.sort();
        seen.dedup();
        assert_eq!(seen.len(), span as usize, "{sweep:?} missed a line");
    }
}

#[test]
fn every_spelling_round_trips() {
    for (name, sweep) in Sweep::NAMES {
        assert_eq!(Sweep::parse(name), Some(sweep));
        assert_eq!(sweep.name(), name);
    }
    assert_eq!(Sweep::parse("sideways"), None);
}

#[test]
fn only_the_exact_spelling_is_a_sweep() {
    for close in ["", "left", "Left-to-right", "left-to-right ", "left_to_right"] {
        assert_eq!(Sweep::parse(close), None, "{close:?}");
    }
}

#[test]
fn the_spellings_are_listed_in_order() {
    assert_eq!(
        Sweep::spellings(),
        "left-to-right | right-to-left | top-to-bottom | bottom-to-top"
    );
}

#[test]
fn each_reversed_sweep_starts_from_the_far_edge() {
    assert_eq!(Sweep::RightToLeft.line(FIELD, 0), (7, 0, 1, 4));
    assert_eq!(Sweep::RightToLeft.line(FIELD, 8), (7, 0, 1, 4));
    assert_eq!(Sweep::BottomToTop.line(FIELD, 0), (0, 3, 8, 1));
    assert_eq!(Sweep::BottomToTop.line(FIELD, 3), (0, 0, 8, 1));
}

#[test]
fn the_line_is_found_however_long_the_piece_has_run() {
    // 2^64 - 1 is 7 more than a multiple of 8 and 3 more than one of 4.
    assert_eq!(Sweep::LeftToRight.line(FIELD, u64::MAX), (7, 0, 1, 4));
    assert_eq!(Sweep::TopToBottom.line(FIELD, u64::MAX), (0, 3, 8, 1));
    assert_eq!(Sweep::LeftToRight.line((1, 1), u64::MAX), (0, 0, 1, 1));
}

#[test]
fn a_pass_of_a_4k_display_takes_sixty_four_seconds() {
    assert_eq!(Sweep::LeftToRight.span((3840, 2160)), 64 * 60);
    assert_eq!(Sweep::RightToLeft.span((3840, 2160)), 3840);
    assert_eq!(Sweep::TopToBottom.span((3840, 2160)), 2160);
    assert_eq!(Sweep::BottomToTop.span((3840, 2160)), 2160);
}

fn float(ratio: Ratio) -> f32 {
    ratio.num as f32 / ratio.den as f32
}

fn floats(ratios: [Ratio; 2]) -> [f32; 2] {
    [float(ratios[0]), float(ratios[1])]
}

/// Asserts the fractions of the camera image that survive the crop, which is
/// what the numbers mean and what a reader can check by eye.
fn keeps(field: (u32, u32), camera: (u32, u32), scale: [f32; 2], offset: [f32; 2]) {
    let cover = Cover::new(field, camera);
    let near = |a: [f32; 2], b: [f32; 2]| (0..2).all(|i| (a[i] - b[i]).abs() < 1e-5);
    assert!(
        near(floats(cover.scale), scale) && near(floats(cover.offset), offset),
        "{field:?} from {camera:?}: {cover:?}"
    );
}

#[test]
fn a_camera_the_shape_of_the_field_is_not_cropped_at_all() {
    for camera in [(16, 9), (1280, 720), (3840, 2160)] {
        keeps((1920, 1080), camera, [1.0, 1.0], [0.0, 0.0]);
    }
}

#[test]
fn a_narrow_camera_on_a_wide_field_loses_its_top_and_bottom() {
    // 4:3 into 16:9: the widths already match, so three quarters of the
    // height survives, centred: an eighth off each end.
    keeps((1920, 1080), (640, 480), [1.0, 0.75], [0.0, 0.125]);
}

#[test]
fn a_wide_camera_on_a_narrow_field_loses_its_sides() {
    // 16:9 into 4:3: three quarters of the width survives.
    keeps((640, 480), (1920, 1080), [0.75, 1.0], [0.125, 0.0]);
}

#[test]
fn zoom_to_fill_never_leaves_a_bar() {
    // The property the two cases above are instances of: the crop keeps all
    // of one axis and is centred on the other, so the sampled rectangle is
    // inside the camera image and touches its edges on one axis. Neither can
    // be widened without sampling past the image, which is what a bar is.
    for field in [(1920, 1080), (640, 480), (1000, 1000), (3840, 2160)] {
        for camera in [(1920, 1080), (640, 480), (1000, 1000), (720, 1280)] {
            let Cover { scale, offset } = Cover::new(field, camera);
            let (scale, offset) = (floats(scale), floats(offset));
            let filled = (scale[0] - 1.0).abs() < 1e-6 || (scale[1] - 1.0).abs() < 1e-6;
            assert!(filled, "{field:?} from {camera:?}: {scale:?}");
            for axis in 0..2 {
                assert!(scale[axis] <= 1.0 + 1e-6, "{field:?} from {camera:?}");
                assert!(offset[axis] >= -1e-6, "{field:?} from {camera:?}");
                assert!(
                    offset[axis] + scale[axis] <= 1.0 + 1e-6,
                    "{field:?} from {camera:?}"
                );
                // Centred: as much thrown away on one side as the other.
                assert!(
                    (offset[axis] - (1.0 - scale[axis]) / 2.0).abs() < 1e-6,
                    "{field:?} from {camera:?}"
                );
            }
        }
    }
}

#[test]
fn the_crop_is_exact() {
    // A square camera on a 16:9 field keeps nine sixteenths of its height.
    let cover = Cover::new((256, 144), (64, 64));
    assert_eq!(cover.scale[0], Ratio { num: 1, den: 1 });
    assert_eq!(cover.offset[0], Ratio { num: 0, den: 1 });
    assert_eq!(cover.scale[1].num * 16, cover.scale[1].den * 9);
    assert_eq!(cover.offset[1].num * 32, cover.offset[1].den * 7);
}

#[test]
fn what_the_crop_keeps_has_the_shape_of_the_field() {
    for (field, camera) in [
        ((1920u32, 1080u32), (640u32, 480u32)),
        ((640, 480), (1920, 1080)),
        ((u32::MAX, 1), (1, u32::MAX)),
        ((1, u32::MAX), (u32::MAX, 1)),
    ] {
        let Cover { scale, .. } = Cover::new(field, camera);
        let width = scale[0].num as f64 / scale[0].den as f64 * camera.0 as f64;
        let height = scale[1].num as f64 / scale[1].den as f64 * camera.1 as f64;
        let wanted = field.0 as f64 / field.1 as f64;
        assert!(((width / height) / wanted - 1.0).abs() < 1e-9);
    }
}

#[test]
fn the_corners_of_the_field_sample_inside_the_image() {
    for (field, camera) in [
        ((1920, 1080), (640, 480)),
        ((640, 480), (1920, 1080)),
        ((3, u32::MAX), (u32::MAX, 7)),
    ] {
        let Cover { scale, offset } = Cover::new(field, camera);
        for axis in 0..2 {
            assert!(offset[axis].num <= offset[axis].den);
            // offset + scale, over the larger of the two denominators.
            let end = offset[axis].num + scale[axis].num * (offset[axis].den / scale[axis].den);
            assert!(end <= offset[axis].den, "{field:?} from {camera:?}");
        }
    }
}

#[test]
fn the_whole_image_is_the_identity() {
    let whole = Cover::whole();
    assert_eq!(floats(whole.scale), [1.0, 1.0]);
    assert_eq!(floats(whole.offset), [0.0, 0.0]);
}

#[test]
fn fractions_are_kept_in_lowest_terms() {
    assert_eq!(Ratio::new(6, 8), Ratio { num: 3, den: 4 });
    assert_eq!(Ratio::new(0, 5), Ratio { num: 0, den: 1 });
    assert_eq!(Ratio::new(7, 7), Ratio { num: 1, den: 1 });
    assert_eq!(Ratio::new(10, 4), Ratio { num: 5, den: 2 });
    assert_eq!(Ratio::new(3, 7), Ratio { num: 3, den: 7 });
    assert_eq!(Ratio::new(u128::MAX, u128::MAX), Ratio { num: 1, den: 1 });
    // The same quotient is the same fraction, however it was written.
    assert_eq!(Ratio::new(1080 * 640, 1920 * 480), Ratio::new(9 * 4, 16 * 3));
}

#[test]
fn sizes_of_one_shape_are_cropped_alike() {
    // The same shape at another size is not cropped at all.
    assert_eq!(Cover::new((1920, 1080), (1280, 720)), Cover::whole());
    assert_eq!(Cover::new((1920, 1080), (640, 360)), Cover::whole());
    assert_eq!(Cover::new((7, 7), (1, 1)), Cover::whole());
    // Nor does the size of either matter where the shapes differ.
    let crop = Cover::new((1920, 1080), (640, 480));
    assert_eq!(crop, Cover::new((256, 144), (64, 48)));
    assert_eq!(crop, Cover::new((16, 9), (4, 3)));
    assert_eq!(crop.scale, [Ratio { num: 1, den: 1 }, Ratio { num: 3, den: 4 }]);
    assert_eq!(crop.offset, [Ratio { num: 0, den: 1 }, Ratio { num: 1, den: 8 }]);
    assert_ne!(crop, Cover::whole());
    assert_ne!(crop, Cover::new((16, 9), (5, 4)));
}
