//! The piece drawn by a small software GPU: that a line of camera lands where
//! the sweep says, that everything else keeps what an earlier frame put there,
//! that the wrap overwrites rather than stops, that the camera arrives the
//! right way up, and that one the wrong shape for the field is cropped rather
//! than squashed.

use slitscan::field::{copied, read_back, Field, Pass, Upload};
use slitscan::frame_bytes;
use slitscan::ratio::Ratio;
use slitscan::sweep::Sweep;

/// Small enough that a whole pass of the line is a few hundred frames, and
/// 16:9 so a camera that is not has something to be cropped by.
const FIELD: (u32, u32) = (256, 144);

/// A row far enough from both edges that a crop or a flip cannot leave the
/// right answer there by accident. Only the sideways sweeps read it; the
/// downward one names its own rows.
const ROW: u32 = 70;

/// A texture of RGBA8 pixels.
struct Texture {
    size: (u32, u32),
    pixels: Vec<u8>,
}

impl Texture {
    fn new(size: (u32, u32)) -> Texture {
        Texture {
            size,
            pixels: vec![0; frame_bytes(size)],
        }
    }

    fn offset(&self, x: u32, y: u32) -> usize {
        ((y * self.size.0 + x) * 4) as usize
    }

    /// Draws `source` over all of this texture that the scissor allows.
    fn draw(&mut self, pass: &Pass, source: &Texture) {
        if pass.clear {
            self.pixels.fill(0);
        }
        let (left, top, width, height) = pass
            .scissor
            .unwrap_or((0, 0, self.size.0, self.size.1));
        let float = |r: Ratio| r.num as f64 / r.den as f64;
        let sample = |axis: usize, at: u32, of: u32, side: u32| {
            let uv = (at as f64 + 0.5) / of as f64;
            let uv = uv * float(pass.crop.scale[axis]) + float(pass.crop.offset[axis]);
            (uv * side as f64) as u32
        };
        for y in top..top + height {
            for x in left..left + width {
                let from = source.offset(
                    sample(0, x, self.size.0, source.size.0),
                    sample(1, y, self.size.1, source.size.1),
                );
                let to = self.offset(x, y);
                self.pixels[to..to + 4].copy_from_slice(&source.pixels[from..from + 4]);
            }
        }
    }
}

/// A field and the textures it is drawn with.
struct Piece {
    field: Field,
    camera: Texture,
    texture: Texture,
}

impl Piece {
    fn new(sweep: Sweep, camera: (u32, u32)) -> Piece {
        Piece {
            field: Field::new(FIELD, camera, sweep),
            camera: Texture::new(camera),
            texture: Texture::new(FIELD),
        }
    }

    fn upload(&mut self, frame: &[u8]) {
        let Upload {
            bytes_per_row,
            rows,
        } = self.field.upload(frame);
        assert_eq!((bytes_per_row / 4, rows), self.camera.size);
        self.camera.pixels.copy_from_slice(frame);
    }

    fn step(&mut self) {
        let pass = self.field.advance();
        self.texture.draw(&pass, &self.camera);
    }

    /// The field, by way of a copy with padded rows.
    fn read_back(&self) -> Vec<u8> {
        let (width, height) = self.texture.size;
        let layout = copied((width, height));
        assert_eq!(layout.row, width as usize * 4);
        let mut copy = vec![0xee; layout.bytes];
        for (y, row) in self.texture.pixels.chunks_exact(layout.row).enumerate() {
            copy[y * layout.pitch..y * layout.pitch + layout.row].copy_from_slice(row);
        }
        read_back((width, height), &copy)
    }
}

/// A field driven by `frame(step)` for `frames` frames, then read back.
/// Exactly what the installation does per displayed frame: upload the newest
/// camera frame, write one line, move on.
fn run(
    sweep: Sweep,
    camera: (u32, u32),
    frames: u64,
    mut frame: impl FnMut(u64) -> Vec<u8>,
) -> Vec<u8> {
    let mut piece = Piece::new(sweep, camera);
    for step in 0..frames {
        piece.upload(&frame(step));
        piece.step();
    }
    piece.read_back()
}

/// The pixel at `(x, y)` of a read-back field, RGB.
fn at(pixels: &[u8], (x, y): (u32, u32)) -> [u8; 3] {
    let i = ((y * FIELD.0 + x) * 4) as usize;
    [pixels[i], pixels[i + 1], pixels[i + 2]]
}

/// Read-back colours are compared with a pixel of slack; the stamps below are
/// five apart, so a slack of two still tells any two of them apart.
fn same(got: [u8; 3], want: [u8; 3], what: String) {
    assert!(
        (0..3).all(|c| got[c].abs_diff(want[c]) <= 2),
        "{what}: {got:?} is not {want:?}"
    );
}

/// A frame of one colour, so what the field kept can be read straight off a
/// pixel with none of the crop's arithmetic in the way.
fn flat(size: (u32, u32), rgb: [u8; 3]) -> Vec<u8> {
    [rgb[0], rgb[1], rgb[2], 255]
        .iter()
        .copied()
        .cycle()
        .take(frame_bytes(size))
        .collect()
}

/// A frame drawn pixel by pixel.
fn draw(size: (u32, u32), pixel: impl Fn(u32, u32) -> [u8; 3]) -> Vec<u8> {
    let mut frame = vec![0u8; frame_bytes(size)];
    for y in 0..size.1 {
        for x in 0..size.0 {
            let i = ((y * size.0 + x) * 4) as usize;
            frame[i..i + 3].copy_from_slice(&pixel(x, y));
            frame[i + 3] = 255;
        }
    }
    frame
}

/// A distinct colour per frame: green counts in fives and red carries the
/// tens, which stays inside a byte for the few hundred frames these run.
fn stamp(step: u64) -> [u8; 3] {
    [(step / 51) as u8 * 30 + 10, (step % 51) as u8 * 5, 128]
}

#[test]
fn the_line_lands_where_the_sweep_says_and_the_rest_holds() {
    let camera = (64, 36);
    // Fewer frames than the field is wide, so nothing has wrapped: every
    // column left of the line is a different frame's colour, and every column
    // right of it has never been written.
    let frames = 100;
    let field = run(Sweep::LeftToRight, camera, frames, |step| {
        flat(camera, stamp(step))
    });
    for step in 0..frames {
        let x = step as u32;
        same(
            at(&field, (x, ROW)),
            stamp(step),
            format!("column {x} is not the frame that wrote it"),
        );
    }
    for x in frames as u32..FIELD.0 {
        same(
            at(&field, (x, ROW)),
            [0, 0, 0],
            format!("column {x} was written before the line reached it"),
        );
    }
}

#[test]
fn the_line_wraps_and_writes_over_its_own_first_pass() {
    let camera = (64, 36);
    // A quarter into a second pass, so the field carries both: the overwritten
    // head, and the tail of the first pass the line has not come back to.
    let wrapped = FIELD.0 / 4;
    let frames = FIELD.0 as u64 + wrapped as u64;
    let field = run(Sweep::LeftToRight, camera, frames, |step| {
        flat(camera, stamp(step))
    });
    for x in 0..wrapped {
        same(
            at(&field, (x, ROW)),
            stamp(FIELD.0 as u64 + x as u64),
            format!("column {x} kept the first pass instead of the second"),
        );
    }
    for x in wrapped..FIELD.0 {
        same(
            at(&field, (x, ROW)),
            stamp(x as u64),
            format!("column {x} lost the first pass before the line came back"),
        );
    }
}

#[test]
fn a_downward_sweep_writes_rows_instead_of_columns() {
    let camera = (64, 36);
    let frames = FIELD.1 as u64 / 2;
    let field = run(Sweep::TopToBottom, camera, frames, |step| {
        flat(camera, stamp(step))
    });
    for step in 0..frames {
        let y = step as u32;
        // Both ends of the row, since a sweep that wrote a column instead
        // would have one of them right by luck.
        for x in [7, 200] {
            same(
                at(&field, (x, y)),
                stamp(step),
                format!("row {y} at {x}"),
            );
        }
    }
    same(
        at(&field, (7, frames as u32)),
        [0, 0, 0],
        format!("the sweep wrote past the line it was on"),
    );
}

#[test]
fn the_camera_arrives_the_right_way_up_and_the_right_way_round() {
    // A camera the field's own shape, so nothing is cropped and every corner
    // has somewhere to land. Four quadrants: a flip on either axis, or a swap
    // of the two, moves at least one of them.
    let camera = (128, 72);
    let quadrants = |x: u32, y: u32| match (x < camera.0 / 2, y < camera.1 / 2) {
        (true, true) => [255, 0, 0],
        (false, true) => [0, 255, 0],
        (true, false) => [0, 0, 255],
        (false, false) => [255, 255, 255],
    };
    let field = run(Sweep::LeftToRight, camera, FIELD.0 as u64, |_| {
        draw(camera, quadrants)
    });
    for (corner, want) in [
        ((10, 10), [255, 0, 0]),
        ((FIELD.0 - 10, 10), [0, 255, 0]),
        ((10, FIELD.1 - 10), [0, 0, 255]),
        ((FIELD.0 - 10, FIELD.1 - 10), [255, 255, 255]),
    ] {
        same(
            at(&field, corner),
            want,
            format!("the camera is turned around at {corner:?}"),
        );
    }
}

#[test]
fn a_camera_the_wrong_shape_is_cropped_rather_than_squashed() {
    // 1:1 into 16:9: the widths already fit, so nine sixteenths of the
    // camera's height survives, centred: v from 0.219 to 0.781. Stripes in
    // the outer eighths are outside that band and stripes inside it are not,
    // so which happened is legible in the field rather than inferred.
    let camera = (64, 64);
    let stripes = |_: u32, y: u32| match y * 8 / camera.1 {
        0 => [255, 0, 0], // top eighth, cropped away
        7 => [0, 0, 255], // bottom eighth, cropped away
        _ => [0, 255, 0], // the middle, which must fill the field
    };
    let field = run(Sweep::LeftToRight, camera, 40, |_| draw(camera, stripes));
    for y in 0..FIELD.1 {
        let rgb = at(&field, (20, y));
        assert!(
            rgb[1] > 200 && rgb[0] < 40 && rgb[2] < 40,
            "row {y} is {rgb:?}: a cropped stripe reached the field"
        );
    }
    // Squashing would have fitted the whole 1:1 image into the field, putting
    // the red and blue eighths on the field's own outermost rows, which the
    // rows above say are green.
}

#[test]
fn a_camera_slower_than_the_display_writes_the_frame_it_already_has() {
    // The normal case: thirty frames a second into sixty lines a second. One
    // upload and five lines, which must all be that upload: a field that
    // only wrote on a new frame would leave four columns black.
    let camera = (64, 36);
    let mut piece = Piece::new(Sweep::LeftToRight, camera);
    piece.upload(&flat(camera, stamp(3)));
    for _ in 0..5 {
        piece.step();
    }
    let pixels = piece.read_back();
    for x in 0..5 {
        same(
            at(&pixels, (x, ROW)),
            stamp(3),
            format!("column {x} did not get the frame that was up"),
        );
    }
}

#[test]
fn each_line_shows_the_frame_that_was_up_when_it_was_last_written() {
    let camera = (64, 36);
    for (sweep, frames) in [
        (Sweep::LeftToRight, 100),
        (Sweep::LeftToRight, 256 + 40),
        (Sweep::RightToLeft, 256 + 40),
        (Sweep::BottomToTop, 50),
    ] {
        // A new frame on every third, and the one before it in between.
        let mut piece = Piece::new(sweep, camera);
        for step in 0..frames {
            if step % 3 == 0 {
                piece.upload(&flat(camera, stamp(step)));
            }
            piece.step();
        }
        let pixels = piece.read_back();
        let span = sweep.span(FIELD) as u64;
        for due in 0..span {
            let (x, y, ..) = sweep.line(FIELD, due);
            let last = (0..frames).rev().find(|step| step % span == due);
            same(
                at(&pixels, (x, y)),
                last.map_or([0, 0, 0], |step| stamp(step - step % 3)),
                format!("{sweep:?}, line {due} after {frames}"),
            );
        }
    }
}

#[test]
fn a_camera_whose_rows_are_not_a_round_number_of_bytes_still_uploads() {
    // 66 pixels is 264 bytes a row, which the 256-byte copy pitch does not
    // divide.
    let camera = (66, 50);
    let field = run(Sweep::LeftToRight, camera, 3, |step| {
        flat(camera, stamp(step))
    });
    for step in 0..3u64 {
        same(
            at(&field, (step as u32, ROW)),
            stamp(step),
            format!("column {step}"),
        );
    }
}

#[test]
fn the_present_pass_puts_the_field_on_a_surface_shaped_target() {
    let camera = (64, 36);
    let mut piece = Piece::new(Sweep::LeftToRight, camera);
    for step in 0..40u64 {
        piece.upload(&flat(camera, stamp(step)));
        piece.step();
    }
    let mut target = Texture::new(FIELD);
    // Whatever the surface held before is gone.
    target.pixels.fill(0x55);
    let pass = piece.field.present();
    target.draw(&pass, &piece.texture);
    let shown = target.pixels;
    let held = piece.read_back();
    for x in [0, 1, 20, 39] {
        let i = ((ROW * FIELD.0 + x) * 4) as usize;
        same(
            [shown[i], shown[i + 1], shown[i + 2]],
            [held[i], held[i + 1], held[i + 2]],
            format!("column {x} came out of the present pass changed"),
        );
    }
    assert_eq!(shown, held);
}

#[test]
fn a_new_field_is_black_and_knows_its_pass() {
    let piece = Piece::new(Sweep::LeftToRight, (64, 36));
    assert!(piece.read_back().iter().all(|&b| b == 0));
    assert_eq!(piece.field.size(), FIELD);
    assert_eq!(piece.field.span(), 256);
    assert_eq!(Field::new(FIELD, (64, 36), Sweep::BottomToTop).span(), 144);
}

#[test]
fn the_write_pass_keeps_the_field_and_the_present_pass_clears_the_screen() {
    let mut field = Field::new(FIELD, (64, 36), Sweep::RightToLeft);
    let write = field.advance();
    assert_eq!(write.scissor, Some((255, 0, 1, 144)));
    assert!(!write.clear);
    assert_eq!(field.advance().scissor, Some((254, 0, 1, 144)));
    let present = field.present();
    assert_eq!(present.scissor, None);
    assert!(present.clear);
}

#[test]
fn the_scissor_never_leaves_the_field() {
    for sweep in [
        Sweep::LeftToRight,
        Sweep::RightToLeft,
        Sweep::TopToBottom,
        Sweep::BottomToTop,
    ] {
        let mut field = Field::new((7, 3), (64, 36), sweep);
        for step in 0..20 {
            assert_eq!(field.frames(), step);
            let (x, y, width, height) = field.advance().scissor.expect("a line to write");
            assert!(x + width <= 7 && y + height <= 3, "{sweep:?} at {step}");
            assert!(width == 1 || height == 1, "{sweep:?} at {step}");
        }
    }
}

#[test]
fn rows_are_copied_on_a_round_pitch() {
    let layout = copied((66, 50));
    assert_eq!((layout.row, layout.pitch, layout.bytes), (264, 512, 25_600));
    let layout = copied((64, 3));
    assert_eq!((layout.row, layout.pitch, layout.bytes), (256, 256, 768));
    assert_eq!(copied((1, 1)).pitch, wgpu::COPY_BYTES_PER_ROW_ALIGNMENT as usize);
}

#[test]
fn padding_is_stripped_from_every_row() {
    // Two pixels a row, three rows, each row's bytes numbered from its start.
    let mut copy = vec![0xff; 3 * 256];
    for y in 0..3 {
        for b in 0..8 {
            copy[y * 256 + b] = (y * 8 + b) as u8;
        }
    }
    let pixels: Vec<u8> = (0..24).collect();
    assert_eq!(read_back((2, 3), &copy), pixels);
}
