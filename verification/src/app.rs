//! The run loop's decisions: which surface, when to draw, when to resize, and
//! when to stop. The window and the surface themselves are the caller's.

use vstd::prelude::*;

use crate::camera::{Answer, Camera, Feed, Frame, Polled};
use crate::field::{Canvas, Field, Pass, Upload};
use crate::spec_frame_bytes;
use crate::sweep::Sweep;

verus! {

/// How long to wait, in milliseconds, before trying again when the surface
/// will not hand over a texture. Blocking for the next texture is the loop's
/// only pacing, and every path that returns without presenting skips it, so a
/// screen that has gone away would otherwise be a busy loop reconfiguring a 4K
/// swapchain thousands of times a second.
pub const RETRY_MS: u64 = 16;

/// Declares `wgpu::TextureFormat`, a pixel format as the GPU knows it. Nothing
/// is claimed of what is inside one.
#[verifier::external_type_specification]
#[verifier::external_body]
pub struct ExTextureFormat(wgpu::TextureFormat);

/// Whether wgpu calls a format an sRGB one.
pub uninterp spec fn srgb(format: wgpu::TextureFormat) -> bool;

/// Calls `wgpu::TextureFormat::is_srgb`. The contract claims only that the
/// answer is a function of the format: which formats are sRGB ones is left
/// unsaid.
#[verifier::external_body]
fn is_srgb(format: &wgpu::TextureFormat) -> (yes: bool)
    ensures
        yes == srgb(*format),
{
    format.is_srgb()
}

/// Where the first `true` of `flags` stands, if there is one.
pub fn first_set(flags: &Vec<bool>) -> (at: Option<usize>)
    ensures
        match at {
            Some(at) => at < flags@.len() && flags@[at as int] && forall|i: int|
                0 <= i < at ==> !#[trigger] flags@[i],
            None => forall|i: int| 0 <= i < flags@.len() ==> !#[trigger] flags@[i],
        },
{
    let mut i: usize = 0;
    while i < flags.len()
        invariant
            i <= flags@.len(),
            forall|j: int| 0 <= j < i ==> !#[trigger] flags@[j],
        decreases flags@.len() - i,
    {
        if flags[i] {
            return Some(i);
        }
        i = i + 1;
    }
    None
}

/// Which of the surface's `formats` to draw in: the first that is sRGB.
///
/// The field is sRGB and the present pass writes what it read, so an sRGB
/// surface makes that a round trip. A linear one would take the decoded values
/// raw and wash the picture out.
pub fn surface_format(formats: &Vec<wgpu::TextureFormat>) -> (at: Option<usize>)
    ensures
        match at {
            Some(at) => at < formats@.len() && srgb(formats@[at as int]) && forall|i: int|
                0 <= i < at ==> !srgb(#[trigger] formats@[i]),
            None => forall|i: int| 0 <= i < formats@.len() ==> !srgb(#[trigger] formats@[i]),
        },
{
    let mut flags: Vec<bool> = Vec::new();
    let mut i: usize = 0;
    while i < formats.len()
        invariant
            i <= formats@.len(),
            flags@.len() == i,
            forall|j: int| 0 <= j < i ==> flags@[j] == srgb(#[trigger] formats@[j]),
        decreases formats@.len() - i,
    {
        flags.push(is_srgb(&formats[i]));
        i = i + 1;
    }
    let at: Option<usize> = first_set(&flags);
    at
}

/// What the surface handed over when it was asked for a texture to draw on.
#[derive(Clone, Copy, Debug, PartialEq, Eq, Structural)]
pub enum Surface {
    /// A texture.
    Success,
    /// A texture drawn for a swapchain that no longer matches the surface.
    Suboptimal,
    /// Nothing, since the swapchain no longer matches the surface.
    Outdated,
    /// Nothing, since nobody can see the window.
    Occluded,
    /// Nothing in time.
    Timeout,
    /// Nothing, since the surface is gone.
    Lost,
    /// Nothing, since the request was not a valid one.
    Validation,
}

/// What to do with what the surface handed over.
#[derive(Debug, PartialEq)]
pub enum Acquired {
    /// Draw on the texture, and then configure the surface again if `stale`.
    Draw { stale: bool },
    /// Miss a frame: configure the surface again if `reconfigure`, and hold
    /// off for [`RETRY_MS`] if `wait`.
    Skip { reconfigure: bool, wait: bool },
    /// Stop, for this reason.
    Stop(String),
}

/// Why the piece stops when the surface hands this over, if it does.
pub open spec fn surface_refusal(surface: Surface) -> Option<Seq<char>> {
    match surface {
        Surface::Lost => Some("the surface was lost"@),
        Surface::Validation => Some("the surface refused the request"@),
        _ => None,
    }
}

/// Says what to do with what the surface handed over.
pub fn acquire(surface: Surface) -> (acquired: Acquired)
    ensures
        acquired matches Acquired::Draw { stale } <==> {
            surface is Success || surface is Suboptimal
        },
        acquired matches Acquired::Draw { stale } ==> stale == (surface is Suboptimal),
        acquired matches Acquired::Skip { reconfigure, wait } ==> {
            &&& reconfigure == (surface is Outdated)
            &&& wait == (surface is Outdated || surface is Occluded)
        },
        match surface_refusal(surface) {
            Some(reason) => acquired matches Acquired::Stop(why) && why@ == reason,
            None => !(acquired is Stop),
        },
{
    match surface {
        Surface::Success => Acquired::Draw { stale: false },
        // These are the right pixels, drawn for a swapchain that no longer
        // matches the surface, so show them, then reconfigure. Leaving it
        // suboptimal means the compositor scales the result, and a scaled
        // one-pixel line is the one thing this piece cannot survive.
        Surface::Suboptimal => Acquired::Draw { stale: true },
        // Stale outright: nothing usable came back, so reconfigure and miss a
        // frame. The wait is not for the reconfigure's sake: it bounds the
        // case where reconfiguring does not help.
        Surface::Outdated => Acquired::Skip { reconfigure: true, wait: true },
        // Nothing is wrong and nobody can see the result. Waiting is the whole
        // handling.
        Surface::Occluded => Acquired::Skip { reconfigure: false, wait: true },
        // A GPU busy enough to miss its deadline. Rare, self-limiting, and the
        // next frame is usually fine.
        Surface::Timeout => Acquired::Skip { reconfigure: false, wait: false },
        // Neither is recoverable here. Stopping hands the decision to whatever
        // runs the piece, which starts it again from nothing.
        Surface::Lost => Acquired::Stop("the surface was lost".to_owned()),
        Surface::Validation => Acquired::Stop("the surface refused the request".to_owned()),
    }
}

/// Why the piece stops when the camera answers this, if it does.
pub open spec fn camera_refusal(answer: Answer) -> Option<Seq<char>> {
    if answer is Ended {
        Some("the camera ended"@)
    } else {
        None
    }
}

/// How far one displayed frame has come.
#[derive(Clone, Copy, Debug, PartialEq, Eq, Structural)]
pub enum Phase {
    /// No frame has been begun.
    Idle,
    /// The surface is being asked for a texture to draw on.
    Acquiring,
    /// There is a texture, and the camera is being asked for a frame. Here and
    /// below, `stale` is whether the texture is one of a swapchain that no
    /// longer matches the surface.
    Looking { stale: bool },
    /// The camera's new frame is being handed to the GPU.
    Uploading { stale: bool },
    /// The camera is being drawn onto its line of the field.
    Writing { stale: bool },
    /// The field is being drawn onto the texture, and that shown.
    Presenting { stale: bool },
    /// The surface is being configured again; then, if `wait`, there is one.
    Configuring { wait: bool },
    /// The next frame is being held off.
    Waiting,
}

/// What came of the last [`Task`].
#[derive(Debug, PartialEq)]
pub enum Outcome {
    /// A frame is to be displayed.
    Begun,
    /// The surface answered.
    Surface(Surface),
    /// The channel from the camera's reader was looked at.
    Polled(Polled),
    /// It was done.
    Done,
}

/// What to do next to display a frame.
#[derive(Debug, PartialEq)]
pub enum Task {
    /// Ask the surface for a texture to draw on.
    Acquire,
    /// Look at the channel from the camera's reader.
    Look,
    /// Hand these pixels, which lie like this in memory, to the GPU.
    Upload(Vec<u8>, Upload),
    /// Draw the camera onto the field.
    Write(Pass),
    /// Draw the field onto the texture, and show it.
    Present(Pass),
    /// Configure the surface again.
    Configure,
    /// Hold off for [`RETRY_MS`].
    Wait,
    /// The frame is over. `Ok` asks the window for another redraw; `Err`
    /// leaves the loop, for this reason.
    Over(Result<(), String>),
}

/// What [`Task`] holds; what a pass is to draw is said by
/// [`Canvas::writes`] and [`Pass::shows_all`].
pub ghost enum Doing {
    Acquire,
    Look,
    Upload(Seq<u8>, Upload),
    Write,
    Present,
    Configure,
    Wait,
    Over(Result<(), Seq<char>>),
}

/// How something ended, over what its error holds.
pub open spec fn ending(ended: Result<(), String>) -> Result<(), Seq<char>> {
    match ended {
        Ok(()) => Ok(()),
        Err(why) => Err(why@),
    }
}

impl View for Task {
    type V = Doing;

    open spec fn view(&self) -> Doing {
        match self {
            Task::Acquire => Doing::Acquire,
            Task::Look => Doing::Look,
            Task::Upload(pixels, upload) => Doing::Upload(pixels@, *upload),
            Task::Write(_) => Doing::Write,
            Task::Present(_) => Doing::Present,
            Task::Configure => Doing::Configure,
            Task::Wait => Doing::Wait,
            Task::Over(ended) => Doing::Over(ending(*ended)),
        }
    }
}

/// How a whole frame of `size` lies in memory.
pub open spec fn packed(size: (u32, u32)) -> Upload {
    Upload { bytes_per_row: (size.0 * 4) as u32, rows: size.1 }
}

/// What [`Live`] holds: the field, and how far the frame being displayed has
/// come.
pub ghost struct Scene {
    pub canvas: Canvas,
    pub phase: Phase,
}

impl Scene {
    /// A field of `size` that nothing has been displayed on.
    pub open spec fn blank(size: (u32, u32), camera_size: (u32, u32), sweep: Sweep) -> Scene {
        Scene { canvas: Canvas::blank(size, camera_size, sweep), phase: Phase::Idle }
    }

    /// This scene at another phase.
    pub open spec fn at(self, phase: Phase) -> Scene {
        Scene { phase, ..self }
    }

    /// This scene with a field of another size, which is empty.
    pub open spec fn emptied(self, width: u32, height: u32) -> Scene {
        let canvas = Canvas::blank((width, height), self.canvas.camera_size, self.canvas.sweep);
        Scene { canvas, ..self }
    }

    /// This scene once its line is being written.
    pub open spec fn written(self, stale: bool) -> Scene {
        Scene { canvas: self.canvas.advanced(), phase: Phase::Writing { stale } }
    }

    /// Whether `outcome` can come of what is done at this phase, with frames
    /// that `camera` can have, and can be taken further: the field counts its
    /// frames in 64 bits, and a row of pixels handed to the GPU its bytes in
    /// 32.
    pub open spec fn expects(self, camera: Feed, outcome: Outcome) -> bool {
        match self.phase {
            Phase::Idle => outcome is Begun,
            Phase::Acquiring => outcome is Surface,
            Phase::Looking { stale } => outcome matches Outcome::Polled(polled) && {
                &&& polled matches Polled::Frame(frame) ==> frame@.len() == spec_frame_bytes(
                    camera.size,
                )
                &&& camera.reply(polled) matches Some(Answer::New(_)) ==> camera.size.0 * 4
                    <= u32::MAX
                &&& camera.reply(polled) == Some(Answer::Same) ==> self.canvas.step < u64::MAX
            },
            Phase::Uploading { stale } => outcome is Done && self.canvas.step < u64::MAX,
            _ => outcome is Done,
        }
    }

    /// This scene, the camera and what is done, once `outcome` has come of
    /// what was done before.
    pub open spec fn follows(self, camera: Feed, outcome: Outcome) -> (Scene, Feed, Doing)
        recommends
            self.expects(camera, outcome),
    {
        let over = Doing::Over(Ok(()));
        match (self.phase, outcome) {
            (Phase::Idle, Outcome::Begun) => (self.at(Phase::Acquiring), camera, Doing::Acquire),
            (Phase::Acquiring, Outcome::Surface(surface)) => match surface {
                // The camera is asked once there is a texture in hand.
                Surface::Success => (
                    self.at(Phase::Looking { stale: false }),
                    camera,
                    Doing::Look,
                ),
                Surface::Suboptimal => (
                    self.at(Phase::Looking { stale: true }),
                    camera,
                    Doing::Look,
                ),
                Surface::Outdated => (
                    self.at(Phase::Configuring { wait: true }),
                    camera,
                    Doing::Configure,
                ),
                Surface::Occluded => (self.at(Phase::Waiting), camera, Doing::Wait),
                Surface::Timeout => (self.at(Phase::Idle), camera, over),
                Surface::Lost | Surface::Validation => (
                    self.at(Phase::Idle),
                    camera,
                    Doing::Over(Err(surface_refusal(surface)->0)),
                ),
            },
            (Phase::Looking { stale }, Outcome::Polled(polled)) => {
                let next = camera.after(polled);
                match camera.reply(polled) {
                    None => (self, next, Doing::Look),
                    Some(Answer::New(pixels)) => (
                        self.at(Phase::Uploading { stale }),
                        next,
                        Doing::Upload(pixels, packed(camera.size)),
                    ),
                    Some(Answer::Same) => (self.written(stale), next, Doing::Write),
                    Some(Answer::Ended) => (
                        self.at(Phase::Idle),
                        next,
                        Doing::Over(Err(camera_refusal(Answer::Ended)->0)),
                    ),
                }
            },
            (Phase::Uploading { stale }, Outcome::Done) => (
                self.written(stale),
                camera,
                Doing::Write,
            ),
            (Phase::Writing { stale }, Outcome::Done) => (
                self.at(Phase::Presenting { stale }),
                camera,
                Doing::Present,
            ),
            (Phase::Presenting { stale }, Outcome::Done) => if stale {
                (self.at(Phase::Configuring { wait: false }), camera, Doing::Configure)
            } else {
                (self.at(Phase::Idle), camera, over)
            },
            (Phase::Configuring { wait }, Outcome::Done) => if wait {
                (self.at(Phase::Waiting), camera, Doing::Wait)
            } else {
                (self.at(Phase::Idle), camera, over)
            },
            (Phase::Waiting, Outcome::Done) => (self.at(Phase::Idle), camera, over),
            _ => arbitrary(),
        }
    }
}

/// The piece once it has a window.
pub struct Live {
    /// The two settings the render path needs, held here rather than reached
    /// for through the command line: a resize rebuilds the field from them.
    capture: (u32, u32),
    sweep: Sweep,
    field: Field,
    phase: Phase,
}

impl View for Live {
    type V = Scene;

    closed spec fn view(&self) -> Scene {
        Scene { canvas: self.field@, phase: self.phase }
    }
}

/// A side of at least one pixel.
pub open spec fn at_least_one(side: u32) -> u32 {
    if side == 0 {
        1
    } else {
        side
    }
}

/// Whether a window of this size wants another field than one of size `now`.
pub open spec fn wants_another_field(now: (u32, u32), width: u32, height: u32) -> bool {
    width != 0 && height != 0 && (width, height) != now
}

impl Live {
    /// The field is one that can be written, from the settings held here.
    pub closed spec fn wf(&self) -> bool {
        &&& self.field@.wf()
        &&& self.field@.camera_size == self.capture
        &&& self.field@.sweep == self.sweep
    }

    /// A window of size `window` showing a camera whose frames are `capture`.
    /// Whatever the compositor gives is the field: the piece is the screen it
    /// is installed on.
    pub fn new(window: (u32, u32), capture: (u32, u32), sweep: Sweep) -> (live: Live)
        requires
            capture.0 > 0,
            capture.1 > 0,
        ensures
            live.wf(),
            live@ == Scene::blank(
                (at_least_one(window.0), at_least_one(window.1)),
                capture,
                sweep,
            ),
    {
        let width: u32 = if window.0 == 0 {
            1
        } else {
            window.0
        };
        let height: u32 = if window.1 == 0 {
            1
        } else {
            window.1
        };
        let field: Field = Field::new((width, height), capture, sweep);
        Live { capture, sweep, field, phase: Phase::Idle }
    }

    /// The size of the field, which is the size the surface is configured to.
    pub fn size(&self) -> (size: (u32, u32))
        ensures
            size == self@.canvas.size,
    {
        self.field.size()
    }

    /// One full pass of the writing line, in frames.
    pub fn span(&self) -> (span: u32)
        ensures
            span == self@.canvas.sweep.span(self@.canvas.size),
    {
        self.field.span()
    }

    /// Frames presented since the field was last black.
    pub fn frames(&self) -> (frames: u64)
        ensures
            frames == self@.canvas.step,
    {
        self.field.frames()
    }

    /// Takes in the window's new size, and says whether the surface is to be
    /// configured to it.
    ///
    /// A resize rebuilds the field at the new size, which empties it. The
    /// field is the screen's own pixels: there is no meaning to carry across
    /// a change of how many there are. It happens once, when the compositor
    /// hands the window its real size at startup; anything later is a display
    /// mode change.
    pub fn resize(&mut self, width: u32, height: u32) -> (changed: bool)
        requires
            old(self).wf(),
        ensures
            final(self).wf(),
            changed == wants_another_field(old(self)@.canvas.size, width, height),
            final(self)@ == if changed {
                old(self)@.emptied(width, height)
            } else {
                old(self)@
            },
    {
        let now: (u32, u32) = self.field.size();
        if width == 0 || height == 0 || (width == now.0 && height == now.1) {
            return false;
        }
        self.field = Field::new((width, height), self.capture, self.sweep);
        true
    }

    /// Says what to do next to display a frame, now that `outcome` has come
    /// of the last task. It begins with [`Outcome::Begun`] and is over with
    /// [`Task::Over`].
    pub fn render(&mut self, camera: &mut Camera, outcome: Outcome) -> (task: Task)
        requires
            old(self).wf(),
            old(camera)@.whole(),
            old(camera)@.size == old(self)@.canvas.camera_size,
            old(self)@.expects(old(camera)@, outcome),
        ensures
            final(self).wf(),
            (final(self)@, final(camera)@, task@) == old(self)@.follows(old(camera)@, outcome),
            task matches Task::Write(pass) ==> old(self)@.canvas.writes(pass),
            task matches Task::Present(pass) ==> pass.shows_all(),
    {
        match (self.phase, outcome) {
            (Phase::Idle, Outcome::Begun) => {
                self.phase = Phase::Acquiring;
                Task::Acquire
            },
            (Phase::Acquiring, Outcome::Surface(surface)) => match acquire(surface) {
                Acquired::Draw { stale } => {
                    self.phase = Phase::Looking { stale };
                    Task::Look
                },
                Acquired::Skip { reconfigure, wait } => if reconfigure {
                    self.phase = Phase::Configuring { wait };
                    Task::Configure
                } else if wait {
                    self.phase = Phase::Waiting;
                    Task::Wait
                } else {
                    self.over(Ok(()))
                },
                Acquired::Stop(why) => self.over(Err(why)),
            },
            (Phase::Looking { stale }, Outcome::Polled(polled)) => match camera.frame(polled) {
                None => Task::Look,
                Some(Frame::New(pixels)) => {
                    let upload: Upload = self.field.upload(pixels.as_slice());
                    self.phase = Phase::Uploading { stale };
                    Task::Upload(pixels, upload)
                },
                // The camera is slower than the display, so most frames write
                // their line from the frame already up there.
                Some(Frame::Same) => self.write(stale),
                Some(Frame::Ended) => self.over(Err("the camera ended".to_owned())),
            },
            (Phase::Uploading { stale }, Outcome::Done) => self.write(stale),
            (Phase::Writing { stale }, Outcome::Done) => {
                self.phase = Phase::Presenting { stale };
                Task::Present(self.field.present())
            },
            (Phase::Presenting { stale }, Outcome::Done) => if stale {
                self.phase = Phase::Configuring { wait: false };
                Task::Configure
            } else {
                self.over(Ok(()))
            },
            (Phase::Configuring { wait }, Outcome::Done) => if wait {
                self.phase = Phase::Waiting;
                Task::Wait
            } else {
                self.over(Ok(()))
            },
            (Phase::Waiting, Outcome::Done) => self.over(Ok(())),
            // No other outcome can come of what was done.
            _ => Task::Look,
        }
    }

    /// Writes the line, and moves it along.
    fn write(&mut self, stale: bool) -> (task: Task)
        requires
            old(self).wf(),
            old(self)@.canvas.step < u64::MAX,
        ensures
            final(self).wf(),
            final(self)@ == old(self)@.written(stale),
            task matches Task::Write(pass) && old(self)@.canvas.writes(pass),
    {
        self.phase = Phase::Writing { stale };
        Task::Write(self.field.advance())
    }

    /// Ends the frame.
    fn over(&mut self, ended: Result<(), String>) -> (task: Task)
        requires
            old(self).wf(),
        ensures
            final(self).wf(),
            final(self)@ == old(self)@.at(Phase::Idle),
            task == Task::Over(ended),
    {
        self.phase = Phase::Idle;
        Task::Over(ended)
    }
}

/// What happened to the window.
#[derive(Clone, Copy, Debug, PartialEq, Eq, Structural)]
pub enum WindowEvent {
    CloseRequested,
    /// The window has this width and height.
    Resized(u32, u32),
    RedrawRequested,
    /// A key went down or up: whether down, and whether it is Escape.
    KeyboardInput { pressed: bool, escape: bool },
    /// Anything else.
    Other,
}

/// What the loop does next.
#[derive(Clone, Copy, Debug, PartialEq, Eq, Structural)]
pub enum Reaction {
    Nothing,
    /// Leave the loop.
    Exit,
    /// Configure the surface, and build the field, at the new size.
    Rebuild,
    /// Display a frame.
    Render,
}

pub struct App {
    sweep: Sweep,
    camera: Camera,
    live: Option<Live>,
    /// Why the piece stopped by itself, if it did. It leaves by exit status:
    /// a television has no other channel, and what runs the piece restarts it
    /// on a non-zero one, which is what makes a dead camera recoverable.
    stopped: Option<String>,
}

/// What [`App`] holds.
pub ghost struct Piece {
    pub sweep: Sweep,
    pub camera: Feed,
    pub live: Option<Scene>,
    pub stopped: Option<Seq<char>>,
}

impl View for App {
    type V = Piece;

    closed spec fn view(&self) -> Piece {
        Piece {
            sweep: self.sweep,
            camera: self.camera@,
            live: match self.live {
                Some(live) => Some(live@),
                None => None,
            },
            stopped: match self.stopped {
                Some(why) => Some(why@),
                None => None,
            },
        }
    }
}

impl Piece {
    /// The camera has no zero side and holds whole frames, and the field, if
    /// there is one, is written from that camera by this sweep.
    pub open spec fn of_one_piece(self) -> bool {
        &&& self.camera.size.0 > 0
        &&& self.camera.size.1 > 0
        &&& self.camera.whole()
        &&& self.live matches Some(scene) ==> {
            &&& scene.canvas.camera_size == self.camera.size
            &&& scene.canvas.sweep == self.sweep
        }
    }

    /// This piece, stopped for a reason.
    pub open spec fn stopped_by(self, why: Seq<char>) -> Piece {
        Piece { stopped: Some(why), ..self }
    }

    /// This piece and the loop's reaction, once `event` has happened to the
    /// window.
    pub open spec fn after(self, event: WindowEvent) -> (Piece, Reaction) {
        match self.live {
            None => (self, Reaction::Nothing),
            Some(scene) => match event {
                WindowEvent::CloseRequested => (self, Reaction::Exit),
                WindowEvent::Resized(width, height) => if wants_another_field(
                    scene.canvas.size,
                    width,
                    height,
                ) {
                    let live = Some(scene.emptied(width, height));
                    (Piece { live, ..self }, Reaction::Rebuild)
                } else {
                    (self, Reaction::Nothing)
                },
                WindowEvent::RedrawRequested => (self, Reaction::Render),
                WindowEvent::KeyboardInput { pressed, escape } => if pressed && escape {
                    (self, Reaction::Exit)
                } else {
                    (self, Reaction::Nothing)
                },
                WindowEvent::Other => (self, Reaction::Nothing),
            },
        }
    }

    /// Whether there is a window, and `outcome` can come of what is being done
    /// there.
    pub open spec fn expects(self, outcome: Outcome) -> bool {
        self.live matches Some(scene) && scene.expects(self.camera, outcome)
    }

    /// This piece and what is done next to display a frame, once `outcome` has
    /// come of what was done before. A frame that cannot go on stops the
    /// piece.
    pub open spec fn shown(self, outcome: Outcome) -> (Piece, Doing)
        recommends
            self.expects(outcome),
    {
        let (scene, camera, doing) = self.live->0.follows(self.camera, outcome);
        let piece = Piece { camera, live: Some(scene), ..self };
        match doing {
            Doing::Over(Err(why)) => (piece.stopped_by(why), doing),
            _ => (piece, doing),
        }
    }

    /// This piece and all that is done to display a frame, in order, once each
    /// of `outcomes` has come of what was done before it.
    pub open spec fn through(self, outcomes: Seq<Outcome>) -> (Piece, Seq<Doing>)
        decreases outcomes.len(),
    {
        if outcomes.len() == 0 {
            (self, Seq::empty())
        } else {
            let (before, done) = self.through(outcomes.drop_last());
            let (piece, doing) = before.shown(outcomes.last());
            (piece, done.push(doing))
        }
    }

    /// How the piece left, given how its loop did: the reason it stopped for
    /// comes before the loop's own error, since it is the more specific of the
    /// two and the one worth printing.
    pub open spec fn left(self, ran: Result<(), Seq<char>>) -> Result<(), Seq<char>> {
        match self.stopped {
            Some(why) => Err(why),
            None => ran,
        }
    }
}

impl App {
    /// The window, if there is one, can be drawn.
    pub closed spec fn drawable(&self) -> bool {
        self.live matches Some(live) ==> live.wf()
    }

    /// The window can be drawn, and its field is written from this camera, at
    /// the size its frames really are, by this sweep.
    pub open spec fn wf(&self) -> bool {
        &&& self.drawable()
        &&& self@.of_one_piece()
    }

    /// The piece before it has a window. The camera is opened before the
    /// window is, so a device that will not open is an error on the terminal
    /// rather than a black screen on a television.
    pub fn new(sweep: Sweep, camera: Camera) -> (app: App)
        requires
            camera@.size.0 > 0,
            camera@.size.1 > 0,
            camera@.whole(),
        ensures
            app.wf(),
            app@ == (Piece { sweep, camera: camera@, live: None, stopped: None }),
    {
        App { sweep, camera, live: None, stopped: None }
    }

    /// Takes in the window's size once there is a window, unless there was one
    /// already.
    pub fn resumed(&mut self, window: (u32, u32))
        requires
            old(self).wf(),
        ensures
            final(self).wf(),
            final(self)@ == if old(self)@.live is Some {
                old(self)@
            } else {
                Piece {
                    live: Some(
                        Scene::blank(
                            (at_least_one(window.0), at_least_one(window.1)),
                            old(self)@.camera.size,
                            old(self)@.sweep,
                        ),
                    ),
                    ..old(self)@
                }
            },
    {
        if self.live.is_none() {
            let live: Live = Live::new(window, self.camera.size(), self.sweep);
            self.live = Some(live);
        }
    }

    /// Takes in what happened to the window.
    pub fn window_event(&mut self, event: WindowEvent) -> (reaction: Reaction)
        requires
            old(self).wf(),
        ensures
            final(self).wf(),
            (final(self)@, reaction) == old(self)@.after(event),
    {
        match &mut self.live {
            None => Reaction::Nothing,
            Some(live) => match event {
                WindowEvent::CloseRequested => Reaction::Exit,
                WindowEvent::Resized(width, height) => if live.resize(width, height) {
                    Reaction::Rebuild
                } else {
                    Reaction::Nothing
                },
                WindowEvent::RedrawRequested => Reaction::Render,
                WindowEvent::KeyboardInput { pressed, escape } => if pressed && escape {
                    Reaction::Exit
                } else {
                    Reaction::Nothing
                },
                WindowEvent::Other => Reaction::Nothing,
            },
        }
    }

    /// Says what to do next to display a frame, now that `outcome` has come
    /// of the last task. A frame that cannot go on stops the piece.
    pub fn render(&mut self, outcome: Outcome) -> (task: Task)
        requires
            old(self).wf(),
            old(self)@.expects(outcome),
        ensures
            final(self).wf(),
            (final(self)@, task@) == old(self)@.shown(outcome),
            old(self)@.live matches Some(scene) && {
                &&& task matches Task::Write(pass) ==> scene.canvas.writes(pass)
                &&& task matches Task::Present(pass) ==> pass.shows_all()
            },
    {
        let task: Task = match &mut self.live {
            Some(live) => live.render(&mut self.camera, outcome),
            // There is a window, or no frame would be displayed.
            None => Task::Look,
        };
        if let Task::Over(Err(why)) = &task {
            self.stopped = Some(why.as_str().to_owned());
        }
        task
    }

    /// The window, once there is one.
    pub fn live(&self) -> (live: Option<&Live>)
        ensures
            match live {
                Some(live) => self@.live == Some(live@),
                None => self@.live is None,
            },
    {
        self.live.as_ref()
    }

    /// The size the camera's frames arrive at.
    pub fn camera_size(&self) -> (size: (u32, u32))
        ensures
            size == self@.camera.size,
    {
        self.camera.size()
    }

    /// Which way the line travels.
    pub fn sweep(&self) -> (sweep: Sweep)
        ensures
            sweep == self@.sweep,
    {
        self.sweep
    }

    /// How the piece leaves, given how its loop did.
    pub fn leave(self, ran: Result<(), String>) -> (left: Result<(), String>)
        ensures
            ending(left) == self@.left(ending(ran)),
    {
        match self.stopped {
            Some(why) => Err(why),
            None => ran,
        }
    }
}

/// Whether what the surface handed over is a texture.
pub open spec fn gives_texture(surface: Surface) -> bool {
    surface is Success || surface is Suboptimal
}

/// A frame is begun, and the surface answers.
pub open spec fn begun(surface: Surface) -> Seq<Outcome> {
    seq![Outcome::Begun, Outcome::Surface(surface)]
}

/// The channel is looked at, and has each of `polls`.
pub open spec fn looked(polls: Seq<Polled>) -> Seq<Outcome> {
    Seq::new(polls.len(), |i: int| Outcome::Polled(polls[i]))
}

/// That many tasks are done.
pub open spec fn dones(n: nat) -> Seq<Outcome> {
    Seq::new(n, |i: int| Outcome::Done)
}

/// How a frame is over: well, or with the reason why not.
pub open spec fn or_refused(refusal: Option<Seq<char>>) -> Result<(), Seq<char>> {
    match refusal {
        Some(why) => Err(why),
        None => Ok(()),
    }
}

/// What is done with a texture in hand and the camera's `answer`.
pub open spec fn drawing(answer: Answer, upload: Upload, stale: bool) -> Seq<Doing> {
    match answer {
        Answer::New(pixels) => seq![Doing::Upload(pixels, upload)] + drawing_line(stale),
        Answer::Same => drawing_line(stale),
        Answer::Ended => Seq::empty(),
    }
}

/// What is done to draw the line and show the field.
pub open spec fn drawing_line(stale: bool) -> Seq<Doing> {
    if stale {
        seq![Doing::Write, Doing::Present, Doing::Configure]
    } else {
        seq![Doing::Write, Doing::Present]
    }
}

/// That many looks at the channel.
pub open spec fn looks(n: nat) -> Seq<Doing> {
    Seq::new(n, |i: int| Doing::Look)
}

impl Piece {
    /// A piece that stops by itself leaves with that reason, whatever its loop
    /// says: it never exits as if all were well.
    pub proof fn law_a_stop_is_an_error(self, why: Seq<char>, ran: Result<(), Seq<char>>)
        ensures
            self.stopped_by(why).left(ran) == Err::<(), Seq<char>>(why),
    {
    }

    /// A camera that has ended stops the piece, and the piece leaves saying
    /// so: at the latest one answer after the reader is gone, the answer is
    /// one that stops it.
    pub proof fn law_a_dead_camera_stops_the_piece(self, ran: Result<(), Seq<char>>)
        ensures
            camera_refusal(self.camera.answered().answer(true)) matches Some(why)
                && self.stopped_by(why).left(ran) == Err::<(), Seq<char>>("the camera ended"@),
    {
    }

    /// What is handed to the GPU fits: it is a whole frame of the size that
    /// the field is written from, and its rows are said to lie as they do.
    /// Nothing that comes of displaying a frame takes the piece apart.
    pub proof fn law_a_shown_frame_fits_the_field(self, scene: Scene, outcome: Outcome)
        requires
            self.of_one_piece(),
            self.live == Some(scene),
            self.expects(outcome),
        ensures
            self.shown(outcome).1 matches Doing::Upload(pixels, upload) ==> {
                &&& pixels.len() == spec_frame_bytes(scene.canvas.camera_size)
                &&& upload.rows == scene.canvas.camera_size.1
                &&& upload.bytes_per_row * upload.rows == pixels.len()
            },
            self.shown(outcome).0.of_one_piece(),
    {
        if let Outcome::Polled(polled) = outcome {
            let (w, h) = (self.camera.size.0 as int, self.camera.size.1 as int);
            assert((w * 4) * h == w * h * 4) by (nonlinear_arith);
            if scene.phase is Looking {
                self.camera.law_frames_are_whole(polled);
            }
        }
    }

    /// What is done once `outcome` follows `outcomes`.
    proof fn lemma_through(self, outcomes: Seq<Outcome>, outcome: Outcome)
        ensures
            self.through(outcomes.push(outcome)).0 == self.through(outcomes).0.shown(outcome).0,
            self.through(outcomes.push(outcome)).1 == self.through(outcomes).1.push(
                self.through(outcomes).0.shown(outcome).1,
            ),
    {
        assert(outcomes.push(outcome).drop_last() =~= outcomes);
    }

    /// While the channel has frames, the camera is asked again.
    proof fn lemma_looks(self, scene: Scene, surface: Surface, polls: Seq<Polled>)
        requires
            self.live == Some(scene),
            scene.phase == Phase::Idle,
            gives_texture(surface),
            forall|i: int| 0 <= i < polls.len() ==> #[trigger] polls[i] is Frame,
        ensures
            self.through(begun(surface) + looked(polls)).0 == (Piece {
                camera: self.camera.polled(polls),
                live: Some(scene.at(Phase::Looking { stale: surface is Suboptimal })),
                ..self
            }),
            self.through(begun(surface) + looked(polls)).1 == seq![Doing::Acquire] + looks(
                polls.len() + 1,
            ),
        decreases polls.len(),
    {
        if polls.len() == 0 {
            self.lemma_through(Seq::empty(), Outcome::Begun);
            self.lemma_through(seq![Outcome::Begun], Outcome::Surface(surface));
            assert(Seq::empty().push(Outcome::Begun) =~= seq![Outcome::Begun]);
            assert(begun(surface) + looked(polls) =~= seq![Outcome::Begun].push(
                Outcome::Surface(surface),
            ));
            assert(seq![Doing::Acquire] + looks(1) =~= seq![Doing::Acquire, Doing::Look]);
        } else {
            let before = polls.drop_last();
            assert forall|i: int| 0 <= i < before.len() implies #[trigger] before[i] is Frame by {
                assert(polls[i] is Frame);
            }
            self.lemma_looks(scene, surface, before);
            assert(polls[polls.len() - 1] is Frame);
            self.lemma_through(begun(surface) + looked(before), Outcome::Polled(polls.last()));
            assert(begun(surface) + looked(polls) =~= (begun(surface) + looked(before)).push(
                Outcome::Polled(polls.last()),
            ));
            assert(seq![Doing::Acquire] + looks(polls.len() + 1) =~= (seq![Doing::Acquire] + looks(
                before.len() + 1,
            )).push(Doing::Look));
        }
    }

    /// One displayed frame, where the surface gives a texture. Only then is
    /// the camera asked, until its channel is drained; a new frame is handed
    /// over before the line is written from it; the field is presented after
    /// that; and a surface that no longer matches is configured again last of
    /// all. The field advances once. Where the camera has ended, nothing is
    /// written or presented, and the piece stops.
    #[verifier::spinoff_prover]
    #[verifier::rlimit(40)]
    pub proof fn law_one_displayed_frame(self, scene: Scene, surface: Surface, polls: Seq<Polled>)
        requires
            self.live == Some(scene),
            scene.phase == Phase::Idle,
            gives_texture(surface),
            polls.len() > 0,
            forall|i: int| 0 <= i < polls.len() - 1 ==> #[trigger] polls[i] is Frame,
            !(polls.last() is Frame),
        ensures
            self.camera.reply_to(polls, polls.len() - 1) matches Some(answer) && {
                let last = drawing(answer, packed(self.camera.size), surface is Suboptimal);
                let outcomes = begun(surface) + looked(polls) + dones(last.len());
                let piece = Piece {
                    camera: self.camera.polled(polls),
                    live: Some(
                        match answer {
                            Answer::Ended => scene,
                            _ => Scene { canvas: scene.canvas.advanced(), ..scene },
                        },
                    ),
                    ..self
                };
                &&& self.through(outcomes).0 == match camera_refusal(answer) {
                    Some(why) => piece.stopped_by(why),
                    None => piece,
                }
                &&& self.through(outcomes).1 == seq![Doing::Acquire] + looks(polls.len()) + last
                    + seq![Doing::Over(or_refused(camera_refusal(answer)))]
            },
    {
        let frames = polls.drop_last();
        assert forall|i: int| 0 <= i < frames.len() implies #[trigger] frames[i] is Frame by {
            assert(polls[i] is Frame);
        }
        self.lemma_looks(scene, surface, frames);
        self.camera.lemma_polled_size(frames);
        assert(polls.take(polls.len() - 1) =~= frames);
        let answer = self.camera.reply_to(polls, polls.len() - 1)->0;
        let before = begun(surface) + looked(frames);
        let asked = begun(surface) + looked(polls);
        self.lemma_through(before, Outcome::Polled(polls.last()));
        assert(asked =~= before.push(Outcome::Polled(polls.last())));
        assert(asked + dones(0) =~= asked);
        self.lemma_through(asked, Outcome::Done);
        assert(asked + dones(1) =~= asked.push(Outcome::Done));
        self.lemma_through(asked + dones(1), Outcome::Done);
        assert(asked + dones(2) =~= (asked + dones(1)).push(Outcome::Done));
        self.lemma_through(asked + dones(2), Outcome::Done);
        assert(asked + dones(3) =~= (asked + dones(2)).push(Outcome::Done));
        self.lemma_through(asked + dones(3), Outcome::Done);
        assert(asked + dones(4) =~= (asked + dones(3)).push(Outcome::Done));
        let stale = surface is Suboptimal;
        let last = drawing(answer, packed(self.camera.size), stale);
        let looking = seq![Doing::Acquire] + looks(polls.len());
        let over = Doing::Over(or_refused(camera_refusal(answer)));
        let whole = looking + last + seq![over];
        match answer {
            Answer::New(pixels) => {
                let upload = Doing::Upload(pixels, packed(self.camera.size));
                let shown = looking.push(upload).push(Doing::Write).push(Doing::Present);
                assert(self.through(asked + dones(2)).1 == shown);
                if stale {
                    assert(last.len() == 4);
                    assert(whole =~= shown.push(Doing::Configure).push(over));
                } else {
                    assert(last.len() == 3);
                    assert(whole =~= shown.push(over));
                }
            },
            Answer::Same => {
                let shown = looking.push(Doing::Write).push(Doing::Present);
                assert(self.through(asked + dones(1)).1 == shown);
                if stale {
                    assert(last.len() == 3);
                    assert(whole =~= shown.push(Doing::Configure).push(over));
                } else {
                    assert(last.len() == 2);
                    assert(whole =~= shown.push(over));
                }
            },
            Answer::Ended => {
                assert(whole =~= looking.push(over));
            },
        }
    }

    /// A frame for which the surface gives no texture is missed: the camera is
    /// not asked, and nothing is written or presented. The surface is
    /// configured again where it no longer matches, and the next frame held
    /// off where asking again at once would be a busy loop; where the surface
    /// is gone, or refuses, the piece stops.
    pub proof fn law_a_missed_frame(self, scene: Scene, surface: Surface)
        requires
            self.live == Some(scene),
            scene.phase == Phase::Idle,
            !gives_texture(surface),
        ensures
            ({
                let last = match surface {
                    Surface::Outdated => seq![Doing::Configure, Doing::Wait],
                    Surface::Occluded => seq![Doing::Wait],
                    _ => seq![],
                };
                let outcomes = begun(surface) + dones(last.len());
                &&& self.through(outcomes).0 == match surface_refusal(surface) {
                    Some(why) => self.stopped_by(why),
                    None => self,
                }
                &&& self.through(outcomes).1 == seq![Doing::Acquire] + last + seq![
                    Doing::Over(or_refused(surface_refusal(surface))),
                ]
            }),
    {
        let asked = begun(surface);
        self.lemma_through(Seq::empty(), Outcome::Begun);
        self.lemma_through(seq![Outcome::Begun], Outcome::Surface(surface));
        assert(Seq::empty().push(Outcome::Begun) =~= seq![Outcome::Begun]);
        assert(asked =~= seq![Outcome::Begun].push(Outcome::Surface(surface)));
        assert(asked + dones(0) =~= asked);
        self.lemma_through(asked, Outcome::Done);
        assert(asked + dones(1) =~= asked.push(Outcome::Done));
        self.lemma_through(asked + dones(1), Outcome::Done);
        assert(asked + dones(2) =~= (asked + dones(1)).push(Outcome::Done));
    }

    /// A surface that is lost, or refuses the request, stops the piece, and
    /// the piece leaves saying so; no other answer of the surface's does.
    pub proof fn law_a_lost_surface_stops_the_piece(
        self,
        surface: Surface,
        ran: Result<(), Seq<char>>,
    )
        ensures
            surface_refusal(surface) is Some <==> surface is Lost || surface is Validation,
            surface_refusal(surface) matches Some(why) ==> self.stopped_by(why).left(ran) == Err::<
                (),
                Seq<char>,
            >(why),
    {
    }

    /// Quitting on purpose is not an error: nothing that happens to the window
    /// makes a piece that has not stopped leave with one.
    pub proof fn law_quitting_on_purpose_is_not_an_error(self, event: WindowEvent)
        requires
            self.stopped is None,
        ensures
            self.after(event).0.stopped is None,
            self.after(event).0.left(Ok(())) == Ok::<(), Seq<char>>(()),
    {
    }

    /// A change of size starts the field again from black; every other thing
    /// that happens to the window leaves the field alone.
    pub proof fn law_only_a_new_size_wipes_the_field(
        self,
        scene: Scene,
        event: WindowEvent,
        px: int,
        py: int,
    )
        requires
            self.live == Some(scene),
        ensures
            match self.after(event).0.live {
                Some(now) => if now.canvas.size == scene.canvas.size {
                    now == scene
                } else {
                    now.canvas.holds(px, py) is None && event is Resized
                },
                None => false,
            },
    {
    }
}

/// What stops the piece, in words: a surface that is lost, one that refuses
/// the request, and a camera that has ended; nothing else the two answer does.
pub proof fn law_what_stops_the_piece(surface: Surface, answer: Answer)
    ensures
        surface == Surface::Lost ==> surface_refusal(surface) == Some("the surface was lost"@),
        surface == Surface::Validation ==> surface_refusal(surface) == Some(
            "the surface refused the request"@,
        ),
        surface != Surface::Lost && surface != Surface::Validation ==> surface_refusal(
            surface,
        ) is None,
        answer == Answer::Ended ==> camera_refusal(answer) == Some("the camera ended"@),
        answer != Answer::Ended ==> camera_refusal(answer) is None,
{
}

/// A window's side is the field's, but for none at all, which is one pixel.
pub proof fn law_a_field_has_a_pixel_at_least(side: u32)
    ensures
        side > 0 ==> at_least_one(side) == side,
        side == 0 ==> at_least_one(side) == 1,
{
}

/// A frame is handed over with its rows as long as the camera's are, four
/// bytes a pixel, and as many as the camera has.
pub proof fn law_rows_are_handed_over_as_they_lie(width: u32, height: u32)
    requires
        4 * width <= u32::MAX,
    ensures
        packed((width, height)).bytes_per_row == 4 * width,
        packed((width, height)).rows == height,
{
}

/// A field that nothing has been displayed on is empty, of the sizes and the
/// sweep it was made with, and no frame of it has begun.
pub proof fn law_a_new_window_is_empty(size: (u32, u32), camera_size: (u32, u32), sweep: Sweep)
    ensures
        Scene::blank(size, camera_size, sweep).phase == Phase::Idle,
        Scene::blank(size, camera_size, sweep).canvas.step == 0,
        Scene::blank(size, camera_size, sweep).canvas.size == size,
        Scene::blank(size, camera_size, sweep).canvas.camera_size == camera_size,
        Scene::blank(size, camera_size, sweep).canvas.sweep == sweep,
{
}

/// A task is what is to be done, with its own pixels and its own reason.
pub proof fn law_a_task_is_what_is_done(pixels: Vec<u8>, upload: Upload, pass: Pass, why: String)
    ensures
        Task::Acquire@ == Doing::Acquire,
        Task::Look@ == Doing::Look,
        Task::Upload(pixels, upload)@ == Doing::Upload(pixels@, upload),
        Task::Write(pass)@ == Doing::Write,
        Task::Present(pass)@ == Doing::Present,
        Task::Configure@ == Doing::Configure,
        Task::Wait@ == Doing::Wait,
        Task::Over(Ok(()))@ == Doing::Over(Ok(())),
        Task::Over(Err(why))@ == Doing::Over(Err(why@)),
        ending(Ok(())) == Ok::<(), Seq<char>>(()),
        ending(Err(why)) == Err::<(), Seq<char>>(why@),
{
}

impl Piece {
    /// Before there is a window nothing that happens to one matters.
    pub proof fn law_nothing_happens_without_a_window(self, event: WindowEvent)
        requires
            self.live is None,
        ensures
            self.after(event) == (self, Reaction::Nothing),
    {
    }

    /// What a piece that has a window answers, whatever its field holds and
    /// however many frames it has shown. Escape going down, and a close
    /// request, leave the loop. A redraw request displays a frame. Another
    /// key, a key going up, and anything else are nothing. None of them
    /// changes the piece.
    pub proof fn law_what_happens_to_a_window(self, pressed: bool, escape: bool)
        requires
            self.live is Some,
        ensures
            self.after(WindowEvent::KeyboardInput { pressed: true, escape: true }) == (
                self,
                Reaction::Exit,
            ),
            self.after(WindowEvent::CloseRequested) == (self, Reaction::Exit),
            self.after(WindowEvent::RedrawRequested) == (self, Reaction::Render),
            !pressed || !escape ==> self.after(WindowEvent::KeyboardInput { pressed, escape }) == (
                self,
                Reaction::Nothing,
            ),
            self.after(WindowEvent::Other) == (self, Reaction::Nothing),
    {
    }

    /// After a resize to two sides that are not zero the field has exactly
    /// those, whatever it had before. Where either differs from before the
    /// field is rebuilt, and is empty, written from the same camera by the
    /// same sweep; where neither does, or where a side is zero, nothing
    /// changes. Nothing but the field ever does.
    pub proof fn law_a_resize_makes_the_field_the_windows_size(
        self,
        scene: Scene,
        width: u32,
        height: u32,
    )
        requires
            self.live == Some(scene),
        ensures
            ({
                let (after, reaction) = self.after(WindowEvent::Resized(width, height));
                let differs = width != scene.canvas.size.0 || height != scene.canvas.size.1;
                &&& reaction == if width > 0 && height > 0 && differs {
                    Reaction::Rebuild
                } else {
                    Reaction::Nothing
                }
                &&& after.live matches Some(now) && {
                    &&& width > 0 && height > 0 ==> now.canvas.size == (width, height)
                    &&& reaction == Reaction::Rebuild ==> now.canvas.step == 0
                    &&& reaction == Reaction::Nothing ==> now == scene
                    &&& now.canvas.camera_size == scene.canvas.camera_size
                    &&& now.canvas.sweep == scene.canvas.sweep
                    &&& now.phase == scene.phase
                }
                &&& after.camera == self.camera
                &&& after.sweep == self.sweep
                &&& after.stopped == self.stopped
            }),
    {
    }

    /// A piece that has a reason to have stopped leaves with it, and one that
    /// has none leaves as its loop did.
    pub proof fn law_how_the_piece_leaves(self, why: Seq<char>, ran: Result<(), Seq<char>>)
        ensures
            self.stopped == Some(why) ==> self.left(ran) == Err::<(), Seq<char>>(why),
            self.stopped is None ==> self.left(ran) == ran,
            self.stopped_by(why) == (Piece {
                sweep: self.sweep,
                camera: self.camera,
                live: self.live,
                stopped: Some(why),
            }),
    {
    }

    /// A frame is begun by asking the surface for a texture.
    pub proof fn law_a_frame_begins_with_the_surface(self, canvas: Canvas)
        requires
            self.live == Some(Scene { canvas, phase: Phase::Idle }),
        ensures
            self.expects(Outcome::Begun),
            self.shown(Outcome::Begun) == (
                Piece { live: Some(Scene { canvas, phase: Phase::Acquiring }), ..self },
                Doing::Acquire,
            ),
    {
    }

    /// What comes of what the surface hands over. A texture, and the camera is
    /// asked; one that no longer matches is remembered as such. Outdated, and
    /// the surface is configured again and the next frame held off; out of
    /// sight, and it is held off; out of time, and the frame is missed. Lost,
    /// or refused, and the piece stops for that reason. The field, the camera
    /// and the sweep are as they were.
    pub proof fn law_what_comes_of_the_surface(self, canvas: Canvas, surface: Surface)
        requires
            self.live == Some(Scene { canvas, phase: Phase::Acquiring }),
        ensures
            self.expects(Outcome::Surface(surface)),
            self.shown(Outcome::Surface(surface)) == {
                let (phase, doing, stopped) = match surface {
                    Surface::Success => (
                        Phase::Looking { stale: false },
                        Doing::Look,
                        self.stopped,
                    ),
                    Surface::Suboptimal => (
                        Phase::Looking { stale: true },
                        Doing::Look,
                        self.stopped,
                    ),
                    Surface::Outdated => (
                        Phase::Configuring { wait: true },
                        Doing::Configure,
                        self.stopped,
                    ),
                    Surface::Occluded => (Phase::Waiting, Doing::Wait, self.stopped),
                    Surface::Timeout => (Phase::Idle, Doing::Over(Ok(())), self.stopped),
                    Surface::Lost => (
                        Phase::Idle,
                        Doing::Over(Err("the surface was lost"@)),
                        Some("the surface was lost"@),
                    ),
                    Surface::Validation => (
                        Phase::Idle,
                        Doing::Over(Err("the surface refused the request"@)),
                        Some("the surface refused the request"@),
                    ),
                };
                (Piece { live: Some(Scene { canvas, phase }), stopped, ..self }, doing)
            },
    {
    }

    /// What comes of a look at the camera that finds a frame: another look,
    /// with that frame the newest.
    pub proof fn law_what_comes_of_a_frame(self, canvas: Canvas, stale: bool, frame: Vec<u8>)
        requires
            self.live == Some(Scene { canvas, phase: Phase::Looking { stale } }),
        ensures
            frame@.len() == self.camera.size.0 * self.camera.size.1 * 4 ==> self.expects(
                Outcome::Polled(Polled::Frame(frame)),
            ),
            self.shown(Outcome::Polled(Polled::Frame(frame))) == (
                Piece { camera: Feed { newest: Some(frame@), ..self.camera }, ..self },
                Doing::Look,
            ),
    {
    }

    /// What comes of a look at the camera that finds nothing more. The newest
    /// frame, or else the one the camera was opened with, is handed over, once,
    /// and the line waits for it. Where there is neither, the line is written
    /// at once from what is up, while the reader is there; where it is gone,
    /// nothing is written, and the piece stops because the camera has ended.
    pub proof fn law_what_comes_of_a_drained_camera(
        self,
        canvas: Canvas,
        stale: bool,
        gone: bool,
    )
        requires
            self.live == Some(Scene { canvas, phase: Phase::Looking { stale } }),
        ensures
            ({
                let outcome = Outcome::Polled(
                    if gone {
                        Polled::Disconnected
                    } else {
                        Polled::Empty
                    },
                );
                let camera = Feed { size: self.camera.size, first: None, newest: None };
                let frame = if self.camera.newest is Some {
                    self.camera.newest
                } else {
                    self.camera.first
                };
                let (piece, doing) = self.shown(outcome);
                let narrow = 4 * self.camera.size.0 <= u32::MAX;
                &&& canvas.step < u64::MAX && (narrow || frame is None) ==> self.expects(outcome)
                &&& piece.camera == camera
                &&& piece.sweep == self.sweep
                &&& piece.live matches Some(now) && match frame {
                    Some(pixels) => {
                        &&& now == (Scene { canvas, phase: Phase::Uploading { stale } })
                        &&& piece.stopped == self.stopped
                        &&& doing matches Doing::Upload(handed, upload) && {
                            &&& handed == pixels
                            &&& narrow ==> upload.bytes_per_row == 4 * self.camera.size.0
                            &&& upload.rows == self.camera.size.1
                        }
                    },
                    None => if gone {
                        &&& now == (Scene { canvas, phase: Phase::Idle })
                        &&& piece.stopped == Some("the camera ended"@)
                        &&& doing == Doing::Over(Err("the camera ended"@))
                    } else {
                        &&& now == (Scene {
                            canvas: Canvas { step: canvas.step + 1, ..canvas },
                            phase: Phase::Writing { stale },
                        })
                        &&& piece.stopped == self.stopped
                        &&& doing == Doing::Write
                    },
                }
            }),
    {
    }

    /// What follows what is done. An upload, and the line is written and moved
    /// along by one; the line, and the field is presented; that, and a surface
    /// that no longer matches is configured again, or else the frame is over.
    /// A surface configured because nothing came of it is waited for, and any
    /// other wait or configuring ends the frame. Nothing but the field and how
    /// far its frame has come ever changes.
    pub proof fn law_what_follows_what_is_done(self, canvas: Canvas, phase: Phase)
        requires
            self.live == Some(Scene { canvas, phase }),
            phase != Phase::Idle,
            phase != Phase::Acquiring,
            !(phase is Looking),
        ensures
            canvas.step < u64::MAX ==> self.expects(Outcome::Done),
            ({
                let over = Doing::Over(Ok(()));
                let (step, next, doing) = match phase {
                    Phase::Uploading { stale } => (
                        canvas.step + 1,
                        Phase::Writing { stale },
                        Doing::Write,
                    ),
                    Phase::Writing { stale } => (
                        canvas.step,
                        Phase::Presenting { stale },
                        Doing::Present,
                    ),
                    Phase::Presenting { stale: true } => (
                        canvas.step,
                        Phase::Configuring { wait: false },
                        Doing::Configure,
                    ),
                    Phase::Configuring { wait: true } => (
                        canvas.step,
                        Phase::Waiting,
                        Doing::Wait,
                    ),
                    _ => (canvas.step, Phase::Idle, over),
                };
                let now = Scene { canvas: Canvas { step, ..canvas }, phase: next };
                self.shown(Outcome::Done) == (Piece { live: Some(now), ..self }, doing)
            }),
    {
    }
}

} // verus!
