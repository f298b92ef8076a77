//! The whole piece: a persistent image the size of the display, one line of
//! which is replaced with the live camera each displayed frame. What is drawn,
//! where, and what is copied is decided here; drawing it is the GPU's.
//!
//! Two textures and two passes. The camera texture holds whatever frame
//! arrived most recently. The *field* holds everything ever written and is
//! never cleared, which is what makes the piece: a scissor rectangle one
//! pixel wide is the only part of it a pass may touch, so the rest keeps what
//! some earlier second put there. Present is the same pass again with no crop
//! and no scissor.
//!
//! The tempo is the display's. One line per presented frame is the premise, so
//! nothing here has a clock: [`Field::advance`] is called once per frame and
//! the sweep is however fast the surface presents. At 3840 columns and 60 Hz
//! a pass across the screen takes just over a minute, which is the piece.

use vstd::arithmetic::div_mod::lemma_fundamental_div_mod_converse;
use vstd::prelude::*;

use crate::camera::Answer;
use crate::spec_frame_bytes;
use crate::sweep::{inside, Cover, Sweep};

verus! {

/// The camera image that is up on frame `step`, where `answers` are what the
/// camera had on each frame from the first: the last that was new by then.
pub open spec fn up(answers: Seq<Answer>, step: int) -> Option<Seq<u8>>
    decreases step + 1,
{
    if step < 0 {
        None
    } else {
        match answers[step] {
            Answer::New(image) => Some(image),
            _ => up(answers, step - 1),
        }
    }
}

/// One drawing of a whole texture over a whole target.
#[derive(Clone, Copy, Debug, PartialEq, Eq)]
pub struct Pass {
    /// Which part of the texture is drawn.
    pub crop: Cover,
    /// The only part of the target that may change, as `(x, y, width,
    /// height)`; all of it where there is none.
    pub scissor: Option<(u32, u32, u32, u32)>,
    /// Whether the target is cleared to black first, or keeps what it held.
    pub clear: bool,
}

impl Pass {
    /// Whether this draws all of the texture over all of the target and
    /// leaves nothing there of what it held.
    pub open spec fn shows_all(self) -> bool {
        &&& self.crop.keeps_all(0)
        &&& self.crop.keeps_all(1)
        &&& self.scissor is None
        &&& self.clear
    }
}

/// How a camera frame lies in memory when it is handed to the GPU.
#[derive(Clone, Copy, Debug, PartialEq, Eq, Structural)]
pub struct Upload {
    pub bytes_per_row: u32,
    pub rows: u32,
}

pub struct Field {
    size: (u32, u32),
    camera_size: (u32, u32),
    sweep: Sweep,
    /// Frames presented since startup. Never reset: the wrap is a remainder,
    /// so there is no edge for anything to be off by one about.
    step: u64,
}

/// What [`Field`] holds.
pub ghost struct Canvas {
    pub size: (u32, u32),
    pub camera_size: (u32, u32),
    pub sweep: Sweep,
    pub step: nat,
}

impl View for Field {
    type V = Canvas;

    closed spec fn view(&self) -> Canvas {
        Canvas {
            size: self.size,
            camera_size: self.camera_size,
            sweep: self.sweep,
            step: self.step as nat,
        }
    }
}

impl Canvas {
    /// Neither the field nor the camera has a zero side.
    pub open spec fn wf(self) -> bool {
        &&& self.size.0 > 0
        &&& self.size.1 > 0
        &&& self.camera_size.0 > 0
        &&& self.camera_size.1 > 0
    }

    /// A field nothing has been written to.
    pub open spec fn blank(size: (u32, u32), camera_size: (u32, u32), sweep: Sweep) -> Canvas {
        Canvas { size, camera_size, sweep, step: 0 }
    }

    /// This field one frame later.
    pub open spec fn advanced(self) -> Canvas {
        Canvas { step: self.step + 1, ..self }
    }

    /// Whether `pass` writes the line that this field's sweep is on and leaves
    /// everything else as it was.
    pub open spec fn writes(self, pass: Pass) -> bool {
        &&& pass.crop.fits(self.size, self.camera_size)
        &&& pass.scissor matches Some(s) && (s.0 as int, s.1 as int, s.2 as int, s.3 as int)
            == self.sweep.spec_line(self.size, self.step as int)
        &&& !pass.clear
    }

    /// This field once a frame has been drawn for each of `answers`, what the
    /// camera had when it was asked.
    pub open spec fn drawn(self, answers: Seq<Answer>) -> Canvas {
        Canvas { step: self.step + answers.len(), ..self }
    }

    /// The camera image that the pixel at `(px, py)` shows, where `answers`
    /// are what the camera had on each frame from the first: the one that was
    /// up when the line was last on it. `None` is black.
    pub open spec fn shows(self, answers: Seq<Answer>, px: int, py: int) -> Option<Seq<u8>> {
        match self.holds(px, py) {
            Some(step) => up(answers, step as int),
            None => None,
        }
    }

    /// The frame whose camera image the pixel at `(px, py)` holds, if the
    /// line has been there.
    pub open spec fn holds(self, px: int, py: int) -> Option<nat> {
        self.sweep.last_written(self.size, self.step, px, py)
    }
}

impl Field {
    /// A black field of `size`, to be written from a camera of `camera_size`.
    pub fn new(size: (u32, u32), camera_size: (u32, u32), sweep: Sweep) -> (field: Field)
        requires
            size.0 > 0,
            size.1 > 0,
            camera_size.0 > 0,
            camera_size.1 > 0,
        ensures
            field@ == Canvas::blank(size, camera_size, sweep),
            field@.wf(),
    {
        Field { size, camera_size, sweep, step: 0 }
    }

    pub fn size(&self) -> (size: (u32, u32))
        ensures
            size == self@.size,
    {
        self.size
    }

    /// One full pass of the writing line, in frames.
    pub fn span(&self) -> (span: u32)
        ensures
            span == self@.sweep.span(self@.size),
    {
        self.sweep.span(self.size)
    }

    /// Frames presented since startup.
    pub fn frames(&self) -> (frames: u64)
        ensures
            frames == self@.step,
    {
        self.step
    }

    /// How to hand over the newest camera frame, tightly packed RGBA8 at the
    /// size this field was built for. Called only when one has arrived: a
    /// field whose camera has not produced anything keeps writing the last
    /// frame, which is what a camera slower than the display means.
    pub fn upload(&self, frame: &[u8]) -> (upload: Upload)
        requires
            frame@.len() == spec_frame_bytes(self@.camera_size),
            self@.camera_size.0 * 4 <= u32::MAX,
        ensures
            upload.bytes_per_row == self@.camera_size.0 * 4,
            upload.rows == self@.camera_size.1,
            upload.bytes_per_row * upload.rows == frame@.len(),
    {
        proof {
            let (w, h) = (self.camera_size.0 as int, self.camera_size.1 as int);
            assert((w * 4) * h == w * h * 4) by (nonlinear_arith);
        }
        Upload { bytes_per_row: self.camera_size.0 * 4, rows: self.camera_size.1 }
    }

    /// Writes the camera onto the one line the sweep is on and moves it along.
    /// Everything else in the field is untouched, which is the whole trick:
    /// the pass draws over the entire field and the scissor is what stops it.
    pub fn advance(&mut self) -> (pass: Pass)
        requires
            old(self)@.wf(),
            old(self)@.step < u64::MAX,
        ensures
            old(self)@.writes(pass),
            final(self)@ == old(self)@.advanced(),
            final(self)@.wf(),
    {
        let line: (u32, u32, u32, u32) = self.sweep.line(self.size, self.step);
        self.step = self.step + 1;
        Pass { crop: Cover::new(self.size, self.camera_size), scissor: Some(line), clear: false }
    }

    /// Draws the field onto a target the caller has sized to match. The field
    /// is already exactly the shape of the display; the camera's shape was
    /// dealt with on the way in.
    pub fn present(&self) -> (pass: Pass)
        ensures
            pass.shows_all(),
    {
        Pass { crop: Cover::whole(), scissor: None, clear: true }
    }
}

/// The bytes of one row of RGBA8 pixels.
pub open spec fn row_bytes(width: u32) -> nat {
    width as nat * 4
}

/// The bytes from the start of one row to the start of the next in a copy of
/// a texture: the row's own, rounded up to a multiple of 256.
pub open spec fn pitch_bytes(width: u32) -> nat {
    (row_bytes(width) + 255) / 256 * 256
}

/// `wgpu::COPY_BYTES_PER_ROW_ALIGNMENT`, the pitch that the rows of a
/// texture-to-buffer copy are aligned to. The contract claims its value.
#[verifier::external_body]
fn row_alignment() -> (align: u32)
    ensures
        align == 256,
{
    wgpu::COPY_BYTES_PER_ROW_ALIGNMENT
}

/// How a copy of a texture lies in memory when it is read back.
#[derive(Clone, Copy, Debug, PartialEq, Eq, Structural)]
pub struct Copied {
    /// The bytes of a row that are pixels.
    pub row: usize,
    /// The bytes from one row to the next.
    pub pitch: usize,
    /// The bytes of the whole copy.
    pub bytes: usize,
}

/// How a copy of a texture of `size` lies in memory.
///
/// A texture-to-buffer copy writes rows on a 256-byte pitch whatever the row's
/// own length is, so the padding is stripped by [`read_back`] rather than
/// wished away here.
pub fn copied(size: (u32, u32)) -> (copied: Copied)
    requires
        pitch_bytes(size.0) <= usize::MAX,
        pitch_bytes(size.0) * size.1 <= usize::MAX,
    ensures
        copied.row == row_bytes(size.0),
        copied.pitch == pitch_bytes(size.0),
        copied.bytes == pitch_bytes(size.0) * size.1,
{
    let align: u64 = row_alignment() as u64;
    let row: u64 = size.0 as u64 * 4;
    let pitch: u64 = (row + (align - 1)) / align * align;
    let height: usize = size.1 as usize;
    Copied { row: row as usize, pitch: pitch as usize, bytes: pitch as usize * height }
}

/// The pixels of a copy without the padding: `height` rows of `row` bytes,
/// out of rows that start every `pitch` bytes.
pub open spec fn unpadded(copy: Seq<u8>, row: int, pitch: int, height: int) -> Seq<u8> {
    Seq::new((row * height) as nat, |i: int| copy[i / row * pitch + i % row])
}

/// The pixels of a texture of `size`, tightly packed RGBA8, row by row from
/// the top, out of a copy of it laid out as [`copied`] says.
pub fn read_back(size: (u32, u32), copy: &[u8]) -> (pixels: Vec<u8>)
    requires
        size.0 > 0,
        copy@.len() == pitch_bytes(size.0) * size.1,
        pitch_bytes(size.0) <= usize::MAX,
    ensures
        pixels@ == unpadded(
            copy@,
            row_bytes(size.0) as int,
            pitch_bytes(size.0) as int,
            size.1 as int,
        ),
{
    let total: usize = copy.len();
    let copied: Copied = copied(size);
    let row: usize = copied.row;
    let pitch: usize = copied.pitch;
    let height: usize = size.1 as usize;
    let mut pixels: Vec<u8> = Vec::new();
    let mut y: usize = 0;
    while y < height
        invariant
            0 < row <= pitch,
            total == copy@.len(),
            total == pitch * height,
            y <= height,
            pixels@ == unpadded(copy@, row as int, pitch as int, y as int),
        decreases height - y,
    {
        proof {
            assert(y * pitch + pitch <= pitch * height) by (nonlinear_arith)
                requires
                    y + 1 <= height,
                    0 < pitch,
            ;
            assert(0 <= y * pitch) by (nonlinear_arith)
                requires
                    0 <= y,
                    0 < pitch,
            ;
        }
        let start: usize = y * pitch;
        let mut b: usize = 0;
        while b < row
            invariant
                0 < row <= pitch,
                total == copy@.len(),
                start == y * pitch,
                start + pitch <= total,
                b <= row,
                pixels@.len() == row * y + b,
                forall|i: int|
                    0 <= i < pixels@.len() ==> pixels@[i] == #[trigger] copy@[i / (row as int)
                        * pitch + i % (row as int)],
            decreases row - b,
        {
            proof {
                let i = row * y + b;
                assert(i == y * row + b) by (nonlinear_arith)
                    requires
                        i == row * y + b,
                ;
                lemma_fundamental_div_mod_converse(
                    i,
                    row as int,
                    y as int,
                    b as int,
                );
            }
            pixels.push(copy[start + b]);
            b = b + 1;
        }
        assert(row * (y + 1) == row * y + row) by (nonlinear_arith);
        y = y + 1;
    }
    pixels
}

impl Canvas {
    /// A field starts out black.
    pub proof fn law_a_new_field_is_black(
        size: (u32, u32),
        camera_size: (u32, u32),
        sweep: Sweep,
        px: int,
        py: int,
    )
        ensures
            Canvas::blank(size, camera_size, sweep).holds(px, py) is None,
    {
    }

    /// A frame replaces one line of the field and nothing else: the pixels
    /// under the scissor hold the new frame, and every other one holds what
    /// it held.
    pub proof fn law_a_frame_replaces_one_line(self, pass: Pass, px: int, py: int)
        requires
            self.wf(),
            self.writes(pass),
            inside(self.size, px, py),
        ensures
            pass.scissor matches Some((x, y, width, height)) && {
                let on_line = x <= px < x + width && y <= py < y + height;
                self.advanced().holds(px, py) == if on_line {
                    Some(self.step)
                } else {
                    self.holds(px, py)
                }
            },
    {
    }

    /// What a frame draws is what is up: on its line, the camera's new image,
    /// or where there is none the one it already had; elsewhere, what was
    /// shown before.
    pub proof fn law_a_frame_draws_the_image_that_is_up(
        self,
        answers: Seq<Answer>,
        answer: Answer,
        pass: Pass,
        px: int,
        py: int,
    )
        requires
            self.wf(),
            self.writes(pass),
            self.step == answers.len(),
            inside(self.size, px, py),
        ensures
            pass.scissor matches Some((x, y, width, height)) && {
                let on_line = x <= px < x + width && y <= py < y + height;
                self.advanced().shows(answers.push(answer), px, py) == if on_line {
                    match answer {
                        Answer::New(image) => Some(image),
                        _ => up(answers, self.step - 1),
                    }
                } else {
                    self.shows(answers, px, py)
                }
            },
    {
        lemma_up_looks_back(answers, answer, self.step - 1);
        if let Some(step) = self.holds(px, py) {
            lemma_last_written_is_past(self.sweep, self.size, self.step, px, py);
            lemma_up_looks_back(answers, answer, step as int);
        }
    }

    /// What a field shows, however long it has run: a pixel that the line has
    /// not reached is black, and any other shows the image that was up on the
    /// latest frame that is as far into its pass as the pixel is along the
    /// sweep. A second pass overwrites the first, and while the camera has
    /// nothing new the image it already has is written again.
    pub proof fn law_what_a_pixel_shows(
        size: (u32, u32),
        camera_size: (u32, u32),
        sweep: Sweep,
        answers: Seq<Answer>,
        px: int,
        py: int,
    )
        requires
            inside(size, px, py),
        ensures
            ({
                let canvas = Canvas::blank(size, camera_size, sweep).drawn(answers);
                let due = sweep.due(size, px, py);
                let span = sweep.span(size) as int;
                &&& canvas.step == answers.len()
                &&& answers.len() <= due ==> canvas.shows(answers, px, py) is None
                &&& answers.len() > due ==> {
                    &&& canvas.holds(px, py) matches Some(step)
                    &&& step < answers.len() <= step + span
                    &&& step as int % span == due
                    &&& canvas.shows(answers, px, py) == up(answers, step as int)
                }
            }),
    {
        if answers.len() <= sweep.due(size, px, py) {
            sweep.law_unreached_pixels_are_untouched(size, answers.len(), px, py);
        } else {
            sweep.law_what_a_pixel_holds(size, answers.len(), px, py);
        }
    }

    /// Each frame drawn is one more advance.
    pub proof fn law_each_answer_is_one_advance(self, answers: Seq<Answer>, answer: Answer)
        ensures
            self.drawn(answers.push(answer)) == self.drawn(answers).advanced(),
            self.drawn(Seq::empty()) == self,
    {
    }

    /// The scissor never leaves the field.
    pub proof fn law_the_scissor_is_inside_the_field(self, pass: Pass)
        requires
            self.wf(),
            self.writes(pass),
        ensures
            pass.scissor matches Some((x, y, width, height)) && x + width <= self.size.0 && y
                + height <= self.size.1 && (width == 1 || height == 1),
    {
        self.sweep.law_line_is_one_line_of_the_field(self.size, self.step as int);
    }
}

/// What is up is the last image that was new: it was new on some frame, and on
/// none since. Before the camera's first, nothing is.
pub proof fn law_what_is_up_was_new_last(answers: Seq<Answer>, step: int)
    requires
        -1 <= step < answers.len(),
    ensures
        match up(answers, step) {
            Some(image) => exists|j: int|
                0 <= j <= step && #[trigger] answers[j] == Answer::New(image) && forall|i: int|
                    j < i <= step ==> !(#[trigger] answers[i] is New),
            None => forall|i: int| 0 <= i <= step ==> !(#[trigger] answers[i] is New),
        },
    decreases step + 1,
{
    if step >= 0 {
        match answers[step] {
            Answer::New(image) => {
                assert(answers[step] == Answer::New(image));
            },
            _ => {
                law_what_is_up_was_new_last(answers, step - 1);
                if let Some(image) = up(answers, step - 1) {
                    let j = choose|j: int|
                        0 <= j <= step - 1 && #[trigger] answers[j] == Answer::New(image) && (
                        forall|i: int| j < i <= step - 1 ==> !(#[trigger] answers[i] is New));
                    assert(answers[j] == Answer::New(image));
                }
            },
        }
    }
}

/// A later answer does not change what was up.
proof fn lemma_up_looks_back(answers: Seq<Answer>, answer: Answer, step: int)
    requires
        step < answers.len(),
    ensures
        up(answers.push(answer), step) == up(answers, step),
    decreases step + 1,
{
    if step >= 0 {
        lemma_up_looks_back(answers, answer, step - 1);
    }
}

/// The frame a pixel holds is one that has been drawn.
proof fn lemma_last_written_is_past(
    sweep: Sweep,
    size: (u32, u32),
    steps: nat,
    px: int,
    py: int,
)
    ensures
        sweep.last_written(size, steps, px, py) matches Some(step) ==> step < steps,
    decreases steps,
{
    if steps > 0 {
        lemma_last_written_is_past(sweep, size, (steps - 1) as nat, px, py);
    }
}

/// The pitch is the smallest multiple of 256 bytes that a row fits in.
pub proof fn law_the_pitch_holds_a_row(width: u32)
    ensures
        pitch_bytes(width) % 256 == 0,
        row_bytes(width) <= pitch_bytes(width) < row_bytes(width) + 256,
{
}

/// Every byte of every pixel is read back from its own place in the copy, and
/// there are as many bytes as a tightly packed frame of that size has.
pub proof fn law_pixels_are_read_from_their_own_place(
    size: (u32, u32),
    copy: Seq<u8>,
    px: int,
    py: int,
    channel: int,
)
    requires
        inside(size, px, py),
        0 <= channel < 4,
    ensures
        ({
            let pixels = unpadded(
                copy,
                row_bytes(size.0) as int,
                pitch_bytes(size.0) as int,
                size.1 as int,
            );
            let at = (py * size.0 + px) * 4 + channel;
            &&& pixels.len() == spec_frame_bytes(size)
            &&& 0 <= at < pixels.len()
            &&& pixels[at] == copy[py * pitch_bytes(size.0) + px * 4 + channel]
        }),
{
    let (w, h) = (size.0 as int, size.1 as int);
    let row = w * 4;
    let at = (py * w + px) * 4 + channel;
    let b = px * 4 + channel;
    assert(row * h == w * h * 4) by (nonlinear_arith)
        requires
            row == w * 4,
    ;
    assert(at == py * row + b) by (nonlinear_arith)
        requires
            at == (py * w + px) * 4 + channel,
            row == w * 4,
            b == px * 4 + channel,
    ;
    assert(0 <= py * row && py * row + row <= row * h) by (nonlinear_arith)
        requires
            0 <= py,
            py + 1 <= h,
            0 <= row,
    ;
    lemma_fundamental_div_mod_converse(at, row, py, b);
}

/// A field begins with nothing written, and a frame moves it on by one and
/// changes nothing else about it.
pub proof fn law_a_field_counts_its_frames(
    canvas: Canvas,
    size: (u32, u32),
    camera_size: (u32, u32),
    sweep: Sweep,
)
    ensures
        Canvas::blank(size, camera_size, sweep).step == 0,
        Canvas::blank(size, camera_size, sweep).size == size,
        Canvas::blank(size, camera_size, sweep).camera_size == camera_size,
        Canvas::blank(size, camera_size, sweep).sweep == sweep,
        canvas.advanced().step == canvas.step + 1,
        canvas.advanced().size == canvas.size,
        canvas.advanced().camera_size == canvas.camera_size,
        canvas.advanced().sweep == canvas.sweep,
{
}

/// A frame writes one line and keeps the rest, whatever the field's size and
/// however many frames it has had: a column, its whole height, as far from
/// the left edge, or from the right one, as the frame is into its pass, or a
/// row, its whole width, as far from the top or the bottom.
pub proof fn law_a_frame_writes_its_line(canvas: Canvas, pass: Pass)
    requires
        canvas.size.0 > 0,
        canvas.size.1 > 0,
        canvas.writes(pass),
    ensures
        !pass.clear,
        ({
            let (width, height) = canvas.size;
            let column = canvas.step as int % (width as int);
            let row = canvas.step as int % (height as int);
            pass.scissor matches Some((x, y, across, down)) && match canvas.sweep {
                Sweep::LeftToRight => x == column && y == 0 && across == 1 && down == height,
                Sweep::RightToLeft => x == width - 1 - column && y == 0 && across == 1 && down
                    == height,
                Sweep::TopToBottom => x == 0 && y == row && across == width && down == 1,
                Sweep::BottomToTop => x == 0 && y == height - 1 - row && across == width && down
                    == 1,
            }
        }),
{
}

/// A frame writes the camera zoomed to fill the field: the axis on which the
/// camera's shape is the larger keeps the smaller shape over it, in the
/// middle, and the other keeps all.
pub proof fn law_a_frame_writes_the_camera_zoomed_to_fill(canvas: Canvas, pass: Pass)
    requires
        canvas.size.0 > 0,
        canvas.size.1 > 0,
        canvas.camera_size.0 > 0,
        canvas.camera_size.1 > 0,
        canvas.writes(pass),
    ensures
        ({
            let wide = canvas.camera_size.0 * canvas.size.1;
            let tall = canvas.camera_size.1 * canvas.size.0;
            let (cropped, other) = if wide > tall {
                (0int, 1int)
            } else {
                (1int, 0int)
            };
            let (kept, all) = if wide > tall {
                (tall, wide)
            } else {
                (wide, tall)
            };
            let (scale, offset) = (pass.crop.scale[cropped], pass.crop.offset[cropped]);
            &&& scale.num * all == kept * scale.den
            &&& offset.num * (2 * all) == (all - kept) * offset.den
            &&& pass.crop.scale[other].num == 1 && pass.crop.scale[other].den == 1
            &&& pass.crop.offset[other].num == 0 && pass.crop.offset[other].den == 1
        }),
{
    pass.crop.law_which_axis_is_cropped(canvas.size, canvas.camera_size, 0, 2);
    pass.crop.law_which_axis_is_cropped(canvas.size, canvas.camera_size, 1, 2);
}

/// A pass that shows the field shows all of it and nothing else: neither
/// scaled nor moved on either axis, over all of a target that is cleared.
pub proof fn law_presenting_shows_all_of_the_field(pass: Pass, axis: int)
    requires
        pass.shows_all(),
        0 <= axis < 2,
    ensures
        pass.clear,
        pass.scissor is None,
        pass.crop.scale[axis].num == 1 && pass.crop.scale[axis].den == 1,
        pass.crop.offset[axis].num == 0 && pass.crop.offset[axis].den == 1,
{
    pass.crop.law_keeping_all_is_the_identity(axis);
}

/// What is on the glass, for every field, sweep and camera. A pixel the line
/// has not come to is black. Any other shows what was up on the latest frame
/// that, modulo the side the line travels along, is the pixel's distance from
/// the edge it starts from; and what was up is the last image that was new by
/// then, if there was one.
pub proof fn law_what_is_on_the_glass(
    width: u32,
    height: u32,
    camera_size: (u32, u32),
    sweep: Sweep,
    answers: Seq<Answer>,
    px: int,
    py: int,
)
    requires
        0 <= px < width,
        0 <= py < height,
    ensures
        ({
            let canvas = Canvas {
                size: (width, height),
                camera_size,
                sweep,
                step: answers.len(),
            };
            let (first, pass) = match sweep {
                Sweep::LeftToRight => (px, width as int),
                Sweep::RightToLeft => (width - 1 - px, width as int),
                Sweep::TopToBottom => (py, height as int),
                Sweep::BottomToTop => (height - 1 - py, height as int),
            };
            if answers.len() <= first {
                canvas.shows(answers, px, py) is None
            } else {
                exists|k: int|
                    0 <= k < answers.len() <= k + pass && k % pass == first && #[trigger] is_up(
                        answers,
                        k,
                        canvas.shows(answers, px, py),
                    )
            }
        }),
{
    let canvas = Canvas { size: (width, height), camera_size, sweep, step: answers.len() };
    Sweep::law_which_frame_each_pixel_holds(sweep, width, height, answers.len(), px, py);
    if let Some(k) = canvas.holds(px, py) {
        law_what_is_up_was_new_last(answers, k as int);
        assert(is_up(answers, k as int, canvas.shows(answers, px, py)));
    }
}

/// Whether `image` is the last of `answers` that was new, up to the frame
/// `step`.
pub open spec fn is_up(answers: Seq<Answer>, step: int, image: Option<Seq<u8>>) -> bool {
    match image {
        Some(image) => exists|j: int|
            0 <= j <= step && #[trigger] answers[j] == Answer::New(image) && forall|i: int|
                j < i <= step ==> !(#[trigger] answers[i] is New),
        None => forall|i: int| 0 <= i <= step ==> !(#[trigger] answers[i] is New),
    }
}

/// The rows of a copy start every so many bytes: the fewest that hold a row of
/// four-byte pixels and are a multiple of 256.
pub proof fn law_rows_are_copied_on_a_round_pitch(width: u32)
    ensures
        row_bytes(width) == 4 * width,
        pitch_bytes(width) % 256 == 0,
        4 * width <= pitch_bytes(width) < 4 * width + 256,
{
}

/// What is read back is every pixel, row by row from the top: the four bytes
/// of the pixel at `(px, py)` stand behind those of the pixels before it, and
/// come from that pixel's place in that row of the copy.
pub proof fn law_every_pixel_is_read_back(
    width: u32,
    height: u32,
    copy: Seq<u8>,
    px: int,
    py: int,
    channel: int,
)
    requires
        0 <= px < width,
        0 <= py < height,
        0 <= channel < 4,
    ensures
        ({
            let pixels = unpadded(
                copy,
                row_bytes(width) as int,
                pitch_bytes(width) as int,
                height as int,
            );
            let pitch = (4 * width + 255) / 256 * 256;
            &&& pixels.len() == width * height * 4
            &&& pixels[(py * width + px) * 4 + channel] == copy[py * pitch + px * 4 + channel]
        }),
{
    law_pixels_are_read_from_their_own_place((width, height), copy, px, py, channel);
}

} // verus!
