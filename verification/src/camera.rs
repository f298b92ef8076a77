//! The live camera: an `ffmpeg` reading a v4l2 node and writing raw RGBA
//! frames down a pipe. The processes, the pipe and the thread draining it are
//! the caller's; what is decided about them is here, and how the pipe is cut
//! into frames in [`crate::pipe`].
//!
//! ffmpeg rather than v4l2 directly because a webcam's own output is MJPEG or
//! YUYV depending on the mode it lands in, and decoding either one would be
//! this piece's largest component by far for no visible difference.
//!
//! It is asked for a *mode* rather than sent through a scaler, so the frames
//! arrive at the sensor's own shape: fitting that shape to the display's is
//! [`crate::sweep::Cover`]'s job. The mode is only a *request*, which is what
//! [`granted`] is for.

use vstd::prelude::*;

use crate::pipe::{
    handed, is_frame_of, law_a_stream_is_cut_into_whole_frames, lemma_frame_length, within, written,
};
use crate::spec_frame_bytes;
use crate::text::{
    characters, debug_text, decimal_text, dimensions, is_digit, is_space, join, joined,
    law_a_number_is_written_as_it_is_counted, law_a_size_is_written_width_first,
    law_size_round_trip, law_trimming_takes_off_the_white_space_around, lemma_decimal_reads_back,
    parse_dimensions, push_word, push_words, quoted, size_string, size_text, texts, trim, trimmed,
};

verus! {

/// How long the camera has to prove it works, in milliseconds, separately for
/// each of the two processes it takes. A device negotiates a format, so this
/// is generous; it only has to be shorter than a performer's patience, since
/// an ffmpeg that cannot open the device says so and exits at once rather than
/// waiting it out. What it bounds is the other case: a node that opens and
/// then never streams, which without a deadline is a startup that hangs in
/// silence.
pub const STARTUP_TIMEOUT_MS: u64 = 10_000;

/// How long to leave ffprobe alone between two looks at it, in milliseconds.
pub const PROBE_INTERVAL_MS: u64 = 20;

/// The words of [`v4l2`].
pub open spec fn v4l2_words(device: Seq<char>, size: (u32, u32)) -> Seq<Seq<char>> {
    seq![
        "-f"@,
        "v4l2"@,
        "-input_format"@,
        "mjpeg"@,
        "-framerate"@,
        "60"@,
        "-video_size"@,
        size_text(size),
        "-i"@,
        device,
    ]
}

/// ffmpeg's input arguments for a webcam on `device`, asking for its `size`
/// mode as MJPEG at sixty frames a second.
///
/// The pixel format is named rather than left open because leaving it open is
/// how the piece ended up at 640x480: libavdevice walks its conversion table
/// and keeps the first entry the driver accepts *at whatever size the driver
/// then substitutes*, and a USB 2.0 webcam has the isochronous bandwidth for a
/// raw mode only at the smallest sizes, so the walk lands on YUYV and 1920
/// becomes 640. A substituted size is not an error to libavdevice; a rejected
/// pixel format is. Naming MJPEG turns a camera that cannot do the mode into a
/// failure at startup rather than a quiet shrink. Sixty is the display's own
/// rate: one fresh frame per written column, which is the piece's premise.
///
/// Every piece is written here rather than taken from the command line: the
/// device name lands as the argument of `-i`, which ffmpeg reads positionally,
/// so nothing a `--device` value can say becomes a flag.
pub fn v4l2(device: &str, size: (u32, u32)) -> (argv: Vec<String>)
    ensures
        texts(argv@) == v4l2_words(device@, size),
{
    // Before -i, so these are the *input's* options: after it, ffmpeg reads
    // them as the output's, which scales rather than negotiates.
    let mut argv: Vec<String> = Vec::new();
    push_word(&mut argv, "-f");
    push_word(&mut argv, "v4l2");
    push_word(&mut argv, "-input_format");
    push_word(&mut argv, "mjpeg");
    push_word(&mut argv, "-framerate");
    push_word(&mut argv, "60");
    push_word(&mut argv, "-video_size");
    push_word(&mut argv, size_string(size).as_str());
    push_word(&mut argv, "-i");
    push_word(&mut argv, device);
    argv
}

/// The words of [`probe_args`].
pub open spec fn probe_words(input: Seq<Seq<char>>) -> Seq<Seq<char>> {
    seq!["-v"@, "error"@, "-select_streams"@, "v:0"@] + input + seq![
        "-show_entries"@,
        "stream=width,height"@,
        "-of"@,
        "csv=s=x:p=0"@,
    ]
}

/// What ffprobe is run with to say which size `input` is granted.
pub fn probe_args(input: &Vec<String>) -> (argv: Vec<String>)
    ensures
        texts(argv@) == probe_words(texts(input@)),
{
    let mut argv: Vec<String> = Vec::new();
    push_word(&mut argv, "-v");
    push_word(&mut argv, "error");
    push_word(&mut argv, "-select_streams");
    push_word(&mut argv, "v:0");
    push_words(&mut argv, input);
    push_word(&mut argv, "-show_entries");
    push_word(&mut argv, "stream=width,height");
    push_word(&mut argv, "-of");
    push_word(&mut argv, "csv=s=x:p=0");
    argv
}

/// The words of [`capture_args`].
pub open spec fn capture_words(input: Seq<Seq<char>>) -> Seq<Seq<char>> {
    seq!["-nostdin"@, "-loglevel"@, "error"@] + input + seq![
        "-an"@,
        "-f"@,
        "rawvideo"@,
        "-pix_fmt"@,
        "rgba"@,
        "-"@,
    ]
}

/// What ffmpeg is run with to write the frames of `input` down its stdout.
pub fn capture_args(input: &Vec<String>) -> (argv: Vec<String>)
    ensures
        texts(argv@) == capture_words(texts(input@)),
{
    let mut argv: Vec<String> = Vec::new();
    push_word(&mut argv, "-nostdin");
    push_word(&mut argv, "-loglevel");
    push_word(&mut argv, "error");
    push_words(&mut argv, input);
    push_word(&mut argv, "-an");
    push_word(&mut argv, "-f");
    push_word(&mut argv, "rawvideo");
    push_word(&mut argv, "-pix_fmt");
    push_word(&mut argv, "rgba");
    push_word(&mut argv, "-");
    argv
}

/// How `program` run on `input` is named in a message.
pub open spec fn called(program: Seq<char>, input: Seq<Seq<char>>) -> Seq<char> {
    program + " "@ + joined(input, " "@)
}

/// Names `program` run on `input`, for a message.
pub fn call(program: &str, input: &Vec<String>) -> (what: String)
    ensures
        what@ == called(program@, texts(input@)),
{
    let mut what: String = program.to_owned();
    what.append(" ");
    what.append(join(input, " ").as_str());
    what
}

/// The size that ffprobe's output names: two numbers with an `x` between them
/// and white space around, neither of them zero.
pub open spec fn reported(out: Seq<char>) -> Option<(u32, u32)> {
    match dimensions(trimmed(out)) {
        Some(size) => if size.0 == 0 || size.1 == 0 {
            None
        } else {
            Some(size)
        },
        None => None,
    }
}

/// Reads the size out of ffprobe's output, if one is there.
pub fn reported_size(out: &str) -> (size: Option<(u32, u32)>)
    ensures
        size == reported(out@),
{
    let chars: Vec<char> = characters(out);
    match parse_dimensions(trim(chars.as_slice())) {
        Some(size) => if size.0 == 0 || size.1 == 0 {
            None
        } else {
            Some(size)
        },
        None => None,
    }
}

/// What is said of output that names no size. `shown` is the output, quoted.
pub fn unreadable(what: &str, shown: &str) -> (why: String)
    ensures
        why@ == what@ + ": cannot read a size out of "@ + shown@,
{
    let mut why: String = what.to_owned();
    why.append(": cannot read a size out of ");
    why.append(shown);
    why
}

/// The size that ffmpeg will deliver for `input`, read out of what ffprobe
/// said rather than assumed from the request, or why there is none.
///
/// `-video_size` is advisory. libavdevice's v4l2 demuxer calls `VIDIOC_S_FMT`,
/// and when the driver answers with a different size it takes that size and
/// logs the substitution at info level, which `-loglevel error` hides. Only a
/// rejected *pixel format* is an error. So a camera that cannot do the mode it
/// was asked for produces frames of some other size down a pipe that carries
/// no framing, and reading them at the requested size shears every frame with
/// nothing anywhere able to notice.
///
/// This is a *second request with the same arguments*, not a look at the one
/// the capture will make: ffprobe opens the node, negotiates, and closes, and
/// ffmpeg then negotiates again. Two identical requests to the same driver
/// removes the failure people actually hit.
pub fn granted(input: &Vec<String>, out: &str) -> (size: Result<(u32, u32), String>)
    ensures
        match size {
            Ok(size) => reported(out@) == Some(size),
            Err(why) => reported(out@) is None && why@ == called(
                "ffprobe"@,
                texts(input@),
            ) + ": cannot read a size out of "@ + debug_text(out@),
        },
{
    match reported_size(out) {
        Some(size) => Ok(size),
        None => Err(unreadable(call("ffprobe", input).as_str(), quoted(out).as_str())),
    }
}

/// What the camera had when it was asked.
#[derive(Debug, PartialEq)]
pub enum Frame {
    /// A new frame, tightly packed RGBA8 at [`Camera::size`].
    New(Vec<u8>),
    /// Nothing since the last call. The field's copy is already the most
    /// recent one and wants no upload: the normal case, since a camera runs
    /// at half the display's rate or less.
    Same,
    /// The camera is gone and will not come back: unplugged, or its ffmpeg
    /// died. Terminal, and deliberately not survivable: a field that keeps
    /// writing one frozen frame paints it across the whole screen inside a
    /// minute and looks exactly like a working installation.
    Ended,
}

/// What [`Frame`] holds.
pub ghost enum Answer {
    New(Seq<u8>),
    Same,
    Ended,
}

impl View for Frame {
    type V = Answer;

    open spec fn view(&self) -> Answer {
        match self {
            Frame::New(frame) => Answer::New(frame@),
            Frame::Same => Answer::Same,
            Frame::Ended => Answer::Ended,
        }
    }
}

/// What the channel from the reader had when it was looked at.
#[derive(Debug, PartialEq)]
pub enum Polled {
    /// A frame, the oldest that has not been collected.
    Frame(Vec<u8>),
    /// Nothing for now.
    Empty,
    /// Nothing, and nothing ever again: the reader is gone.
    Disconnected,
}

/// A camera that has been opened, as far as it can be known without the
/// processes behind it.
pub struct Camera {
    /// The size frames actually arrive at, which is what the pipe is framed
    /// on and what the field's crop is built from.
    size: (u32, u32),
    /// The frame that proved the device works before a window ever opened.
    first: Option<Vec<u8>>,
    /// The newest frame collected while the channel is being drained.
    newest: Option<Vec<u8>>,
}

/// What [`Camera`] holds.
pub ghost struct Feed {
    pub size: (u32, u32),
    pub first: Option<Seq<u8>>,
    pub newest: Option<Seq<u8>>,
}

/// The bytes of a frame that may be there.
pub open spec fn bytes(frame: Option<Vec<u8>>) -> Option<Seq<u8>> {
    match frame {
        Some(frame) => Some(frame@),
        None => None,
    }
}

impl View for Camera {
    type V = Feed;

    closed spec fn view(&self) -> Feed {
        Feed { size: self.size, first: bytes(self.first), newest: bytes(self.newest) }
    }
}

impl Feed {
    /// The frame to show if nothing more arrives. The proof-of-life frame is
    /// a *fallback*, not the head of the queue: by the time the GPU is up,
    /// seconds have passed and newer frames are waiting.
    pub open spec fn pending(self) -> Option<Seq<u8>> {
        match self.newest {
            Some(frame) => Some(frame),
            None => self.first,
        }
    }

    /// This camera once `frame` has been collected.
    pub open spec fn collected(self, frame: Seq<u8>) -> Feed {
        Feed { newest: Some(frame), ..self }
    }

    /// This camera once it has answered.
    pub open spec fn answered(self) -> Feed {
        Feed { first: None, newest: None, ..self }
    }

    /// The answer when the channel is drained, and is disconnected or not.
    pub open spec fn answer(self, ended: bool) -> Answer {
        match self.pending() {
            Some(frame) => Answer::New(frame),
            None => if ended {
                Answer::Ended
            } else {
                Answer::Same
            },
        }
    }

    /// This camera once the channel had `polled` when it was looked at.
    pub open spec fn after(self, polled: Polled) -> Feed {
        match polled {
            Polled::Frame(frame) => self.collected(frame@),
            _ => self.answered(),
        }
    }

    /// What this camera answers when the channel had `polled`; `None` asks for
    /// another look.
    pub open spec fn reply(self, polled: Polled) -> Option<Answer> {
        match polled {
            Polled::Frame(_) => None,
            Polled::Empty => Some(self.answer(false)),
            Polled::Disconnected => Some(self.answer(true)),
        }
    }

    /// This camera once the channel had each of `polls`, in order.
    pub open spec fn polled(self, polls: Seq<Polled>) -> Feed
        decreases polls.len(),
    {
        if polls.len() == 0 {
            self
        } else {
            self.polled(polls.drop_last()).after(polls.last())
        }
    }

    /// What this camera answers to the look `n` of `polls`.
    pub open spec fn reply_to(self, polls: Seq<Polled>, n: int) -> Option<Answer> {
        self.polled(polls.take(n)).reply(polls[n])
    }

    /// Whether what this camera answers to the look `n` of `polls` is a frame.
    pub open spec fn shows_at(self, polls: Seq<Polled>, n: int) -> bool {
        self.reply_to(polls, n) matches Some(Answer::New(_))
    }

    /// Whether every frame this camera holds is a whole one of its size.
    pub open spec fn whole(self) -> bool {
        &&& self.first matches Some(frame) ==> frame.len() == spec_frame_bytes(self.size)
        &&& self.newest matches Some(frame) ==> frame.len() == spec_frame_bytes(self.size)
    }

    /// Whether this camera, just opened, and the looks of `polls` had the
    /// frames that a reader of `reads` handed over, in the order in which it
    /// did; the latest of them may still be in the channel.
    pub open spec fn relayed(self, reads: Seq<Seq<u8>>, polls: Seq<Polled>) -> bool {
        let frames = handed(self.size, reads);
        &&& frames_in(polls) + 1 <= frames.len()
        &&& self.first matches Some(first) && seq![first] + received(polls) == frames.take(
            (frames_in(polls) + 1) as int,
        )
    }

    /// This camera once all of `frames` have been collected, oldest first.
    pub open spec fn drained(self, frames: Seq<Seq<u8>>) -> Feed
        decreases frames.len(),
    {
        if frames.len() == 0 {
            self
        } else {
            self.collected(frames[0]).drained(frames.skip(1))
        }
    }
}

impl Camera {
    /// Starts opening a camera on ffmpeg's `input` arguments: what to do is in
    /// the action, and what came of it goes to [`Opening::next`].
    ///
    /// `input` is a whole argument list rather than a device path so that it
    /// can be one of ffmpeg's own generators: what is worth testing is the
    /// negotiation, the pipe and the shutdown, none of which cares what ffmpeg
    /// opened.
    pub fn open(input: Vec<String>) -> (begun: (Opening, Action))
        ensures
            begun.0.input() == texts(input@),
            begun.0.stage() == Stage::Probing,
            begun.1@ == Step::Probe(probe_words(texts(input@))),
    {
        let argv: Vec<String> = probe_args(&input);
        (Opening { input, stage: Stage::Probing }, Action::Probe(argv))
    }

    /// The size frames arrive at: the driver's answer, not the request.
    pub fn size(&self) -> (size: (u32, u32))
        ensures
            size == self@.size,
    {
        self.size
    }

    /// Takes in what the channel had when it was looked at. `None` asks for
    /// another look; otherwise the answer is the newest frame the camera has
    /// produced since the last one, older ones dropped: what belongs on the
    /// next line is the present, and a backlog would put the past there
    /// instead.
    ///
    /// When the reader is gone, anything it had already handed over is still
    /// the newest thing there is, so it goes out first and the end is the
    /// answer after it.
    pub fn frame(&mut self, polled: Polled) -> (frame: Option<Frame>)
        ensures
            final(self)@ == old(self)@.after(polled),
            match frame {
                Some(frame) => old(self)@.reply(polled) == Some(frame@),
                None => old(self)@.reply(polled) is None,
            },
    {
        let ended: bool = match polled {
            Polled::Frame(received) => {
                self.newest = Some(received);
                return None;
            },
            Polled::Empty => false,
            Polled::Disconnected => true,
        };
        let first: Option<Vec<u8>> = self.first.take();
        let newest: Option<Vec<u8>> = self.newest.take();
        Some(
            match (newest, first) {
                (Some(frame), _) => Frame::New(frame),
                (None, Some(frame)) => Frame::New(frame),
                (None, None) => if ended {
                    Frame::Ended
                } else {
                    Frame::Same
                },
            },
        )
    }
}

/// How far opening a camera has come.
#[derive(Clone, Copy, Debug, PartialEq, Eq, Structural)]
pub enum Stage {
    /// ffprobe is being started.
    Probing,
    /// ffprobe is running, and is looked at now and again.
    Waiting,
    /// ffprobe has exited, and what it said is being read.
    Reading,
    /// ffmpeg is being started; frames will have this width and height.
    Starting(u32, u32),
    /// ffmpeg is running, and its first frame is awaited.
    Awaiting(u32, u32),
    /// The camera is open, or will not open.
    Over,
}

/// What came of the last [`Action`].
#[derive(Debug, PartialEq)]
pub enum Event {
    /// The process was started.
    Started,
    /// The process could not be started, and why.
    NotStarted(String),
    /// ffprobe has not exited this long after it was started, in milliseconds.
    Running(u64),
    /// ffprobe has exited: whether it succeeded, and its status in words.
    Exited(bool, String),
    /// ffprobe could not be looked at, and why.
    Lost(String),
    /// All that ffprobe wrote.
    Output(String),
    /// What ffprobe wrote could not be read, and why.
    Unread(String),
    /// The first frame ffmpeg wrote.
    First(Vec<u8>),
    /// There was no first frame in time, and why.
    NoFirst(String),
}

/// What to do next to open a camera.
pub enum Action {
    /// Start ffprobe with these arguments.
    Probe(Vec<String>),
    /// See whether ffprobe has exited.
    Look,
    /// Wait [`PROBE_INTERVAL_MS`], then see whether ffprobe has exited.
    Wait,
    /// Read what ffprobe wrote.
    Read,
    /// Start ffmpeg with these arguments, and read its output in frames of
    /// this width and height.
    Capture(Vec<String>, (u32, u32)),
    /// Wait for the first frame, [`STARTUP_TIMEOUT_MS`] at the most.
    Await,
    /// The camera is open.
    Opened(Camera),
    /// The camera will not open, for this reason.
    Fail(String),
    /// As [`Action::Fail`], and ffprobe is to be killed.
    Kill(String),
}

/// What [`Action`] holds.
pub ghost enum Step {
    Probe(Seq<Seq<char>>),
    Look,
    Wait,
    Read,
    Capture(Seq<Seq<char>>, (u32, u32)),
    Await,
    Opened(Feed),
    Fail(Seq<char>),
    Kill(Seq<char>),
}

impl View for Action {
    type V = Step;

    open spec fn view(&self) -> Step {
        match self {
            Action::Probe(argv) => Step::Probe(texts(argv@)),
            Action::Look => Step::Look,
            Action::Wait => Step::Wait,
            Action::Read => Step::Read,
            Action::Capture(argv, size) => Step::Capture(texts(argv@), *size),
            Action::Await => Step::Await,
            Action::Opened(camera) => Step::Opened(camera@),
            Action::Fail(why) => Step::Fail(why@),
            Action::Kill(why) => Step::Kill(why@),
        }
    }
}

/// A camera that is being opened. A device that will not open is an error
/// here, at startup, rather than a black field nobody can explain.
pub struct Opening {
    input: Vec<String>,
    stage: Stage,
}

/// Whether `event` can come of what is done at `stage`.
pub open spec fn expected(stage: Stage, event: Event) -> bool {
    match stage {
        Stage::Probing | Stage::Starting(_, _) => event is Started || event is NotStarted,
        Stage::Waiting => event is Running || event is Exited || event is Lost,
        Stage::Reading => event is Output || event is Unread,
        Stage::Awaiting(width, height) => match event {
            Event::First(frame) => frame@.len() == spec_frame_bytes((width, height)),
            _ => event is NoFirst,
        },
        Stage::Over => false,
    }
}

/// The stage and the step that follow when `event` happens at `stage` to a
/// camera opened on `input`.
pub open spec fn follows(input: Seq<Seq<char>>, stage: Stage, event: Event) -> (Stage, Step)
    recommends
        expected(stage, event),
{
    let probe = called("ffprobe"@, input);
    let capture = called("ffmpeg"@, input);
    match (stage, event) {
        (Stage::Probing, Event::NotStarted(why)) => (
            Stage::Over,
            Step::Fail(probe + ": cannot run ffprobe: "@ + why@),
        ),
        (Stage::Probing, Event::Started) => (Stage::Waiting, Step::Look),
        (Stage::Waiting, Event::Running(elapsed)) => if elapsed >= STARTUP_TIMEOUT_MS {
            (Stage::Over, Step::Kill(probe + ": no answer in 10s"@))
        } else {
            (Stage::Waiting, Step::Wait)
        },
        (Stage::Waiting, Event::Exited(success, status)) => if success {
            (Stage::Reading, Step::Read)
        } else {
            (
                Stage::Over,
                Step::Fail(probe + ": "@ + status@ + "; ffprobe's own error is above"@),
            )
        },
        (Stage::Waiting, Event::Lost(why)) => (Stage::Over, Step::Fail(probe + ": "@ + why@)),
        (Stage::Reading, Event::Output(out)) => match reported(out@) {
            Some(size) => (
                Stage::Starting(size.0, size.1),
                Step::Capture(capture_words(input), size),
            ),
            None => (
                Stage::Over,
                Step::Fail(
                    probe + ": cannot read a size out of "@ + debug_text(out@),
                ),
            ),
        },
        (Stage::Reading, Event::Unread(why)) => (Stage::Over, Step::Fail(probe + ": "@ + why@)),
        (Stage::Starting(_, _), Event::NotStarted(why)) => (
            Stage::Over,
            Step::Fail(capture + ": cannot run ffmpeg: "@ + why@),
        ),
        (Stage::Starting(width, height), Event::Started) => (
            Stage::Awaiting(width, height),
            Step::Await,
        ),
        (Stage::Awaiting(width, height), Event::First(frame)) => (
            Stage::Over,
            Step::Opened(Feed { size: (width, height), first: Some(frame@), newest: None }),
        ),
        (Stage::Awaiting(_, _), Event::NoFirst(why)) => (
            Stage::Over,
            Step::Fail(capture + ": no frame ("@ + why@ + "); ffmpeg's own error is above"@),
        ),
        _ => arbitrary(),
    }
}

impl Opening {
    /// The words of ffmpeg's input arguments.
    pub closed spec fn input(&self) -> Seq<Seq<char>> {
        texts(self.input@)
    }

    /// How far it has come.
    pub closed spec fn stage(&self) -> Stage {
        self.stage
    }

    /// Says what to do next, now that `event` has come of the last action.
    pub fn next(&mut self, event: Event) -> (action: Action)
        requires
            expected(old(self).stage(), event),
        ensures
            final(self).input() == old(self).input(),
            (final(self).stage(), action@) == follows(
                old(self).input(),
                old(self).stage(),
                event,
            ),
    {
        proof {
            reveal_strlit("");
            assert forall|s: Seq<char>| #[trigger] (s + ""@) == s by {
                assert(s + ""@ =~= s);
            }
        }
        match (self.stage, event) {
            (Stage::Probing, Event::Started) => {
                self.stage = Stage::Waiting;
                Action::Look
            },
            (Stage::Probing, Event::NotStarted(why)) => {
                Action::Fail(self.fail("ffprobe", ": cannot run ffprobe: ", why.as_str(), ""))
            },
            // On a deadline, because ffprobe has none of its own: a node that
            // opens and never streams leaves it waiting for a packet forever,
            // and this runs before there is a window, a log line or anything
            // else to look at.
            (Stage::Waiting, Event::Running(elapsed)) => if elapsed >= STARTUP_TIMEOUT_MS {
                Action::Kill(self.fail("ffprobe", ": no answer in 10s", "", ""))
            } else {
                Action::Wait
            },
            (Stage::Waiting, Event::Exited(success, status)) => if success {
                self.stage = Stage::Reading;
                Action::Read
            } else {
                Action::Fail(
                    self.fail("ffprobe", ": ", status.as_str(), "; ffprobe's own error is above"),
                )
            },
            (Stage::Waiting, Event::Lost(why)) => {
                Action::Fail(self.fail("ffprobe", ": ", why.as_str(), ""))
            },
            (Stage::Reading, Event::Output(out)) => match granted(&self.input, out.as_str()) {
                Ok(size) => {
                    self.stage = Stage::Starting(size.0, size.1);
                    Action::Capture(capture_args(&self.input), size)
                },
                Err(why) => {
                    self.stage = Stage::Over;
                    Action::Fail(why)
                },
            },
            (Stage::Reading, Event::Unread(why)) => {
                Action::Fail(self.fail("ffprobe", ": ", why.as_str(), ""))
            },
            (Stage::Starting(width, height), Event::Started) => {
                self.stage = Stage::Awaiting(width, height);
                Action::Await
            },
            (Stage::Starting(_, _), Event::NotStarted(why)) => {
                Action::Fail(self.fail("ffmpeg", ": cannot run ffmpeg: ", why.as_str(), ""))
            },
            (Stage::Awaiting(width, height), Event::First(frame)) => {
                self.stage = Stage::Over;
                Action::Opened(
                    Camera { size: (width, height), first: Some(frame), newest: None },
                )
            },
            (Stage::Awaiting(_, _), Event::NoFirst(why)) => {
                Action::Fail(
                    self.fail(
                        "ffmpeg",
                        ": no frame (",
                        why.as_str(),
                        "); ffmpeg's own error is above",
                    ),
                )
            },
            // No other event can come of what was done.
            _ => Action::Look,
        }
    }

    /// Gives up, and says why: what was run, then `before`, `why` and `after`.
    fn fail(&mut self, program: &str, before: &str, why: &str, after: &str) -> (message: String)
        ensures
            final(self).input() == old(self).input(),
            final(self).stage() == Stage::Over,
            message@ == called(program@, old(self).input()) + before@ + why@ + after@,
    {
        self.stage = Stage::Over;
        let mut message: String = call(program, &self.input);
        message.append(before);
        message.append(why);
        message.append(after);
        message
    }
}

/// The stage and the step after `events` have happened, in order, to a camera
/// opened on `input`.
pub open spec fn progress(input: Seq<Seq<char>>, events: Seq<Event>) -> (Stage, Step)
    decreases events.len(),
{
    if events.len() == 0 {
        (Stage::Probing, Step::Probe(probe_words(input)))
    } else {
        follows(input, progress(input, events.drop_last()).0, events.last())
    }
}

/// Whether each of `events` could come of what was done before it.
pub open spec fn possible(input: Seq<Seq<char>>, events: Seq<Event>) -> bool
    decreases events.len(),
{
    events.len() == 0 || {
        &&& possible(input, events.drop_last())
        &&& expected(progress(input, events.drop_last()).0, events.last())
    }
}

/// Whether `event` is ffprobe exiting well.
pub open spec fn exited_well(event: Event) -> bool {
    match event {
        Event::Exited(success, _) => success,
        _ => false,
    }
}

/// Whether `event` is ffprobe saying that frames are `size`.
pub open spec fn says(event: Event, size: (u32, u32)) -> bool {
    match event {
        Event::Output(out) => reported(out@) == Some(size),
        _ => false,
    }
}

/// Whether ffprobe exited well and then said that frames are `size`.
pub open spec fn probed(events: Seq<Event>, size: (u32, u32)) -> bool {
    exists|i: int|
        0 < i < events.len() && #[trigger] says(events[i], size) && exited_well(events[i - 1])
}

proof fn lemma_probed_still(events: Seq<Event>, size: (u32, u32))
    requires
        events.len() > 0,
        probed(events.drop_last(), size),
    ensures
        probed(events, size),
{
    let before = events.drop_last();
    let i = choose|i: int|
        0 < i < before.len() && #[trigger] says(before[i], size) && exited_well(before[i - 1]);
    assert(says(events[i], size) && exited_well(events[i - 1]));
}

proof fn lemma_size_was_probed(input: Seq<Seq<char>>, events: Seq<Event>)
    requires
        possible(input, events),
    ensures
        match progress(input, events).0 {
            Stage::Reading => events.len() > 0 && exited_well(events.last()),
            Stage::Starting(width, height) => probed(events, (width, height)),
            Stage::Awaiting(width, height) => probed(events, (width, height)),
            _ => true,
        },
        progress(input, events).1 matches Step::Opened(feed) ==> probed(events, feed.size),
        progress(input, events).1 matches Step::Capture(_, size) ==> probed(events, size),
    decreases events.len(),
{
    if events.len() > 0 {
        let before = events.drop_last();
        lemma_size_was_probed(input, before);
        match progress(input, before).0 {
            Stage::Reading => {
                let last = events.len() - 1;
                if let Event::Output(out) = events[last] {
                    if let Some(size) = reported(out@) {
                        assert(says(events[last], size));
                    }
                }
            },
            Stage::Starting(width, height) => lemma_probed_still(events, (width, height)),
            Stage::Awaiting(width, height) => lemma_probed_still(events, (width, height)),
            _ => {},
        }
    }
}

/// The size comes from the stream rather than from the request: whatever
/// happens while a camera is opened, ffmpeg's output is only ever read in
/// frames of a size that ffprobe, having exited well, said it is in, and a
/// camera that opens has that size and, to show for it, the frame that was
/// first read, a whole one.
pub proof fn law_the_size_comes_from_the_stream(input: Seq<Seq<char>>, events: Seq<Event>)
    requires
        possible(input, events),
    ensures
        progress(input, events).1 matches Step::Capture(_, size) ==> probed(events, size),
        progress(input, events).1 matches Step::Opened(feed) ==> {
            &&& probed(events, feed.size)
            &&& events.last() matches Event::First(frame) && feed.first == Some(frame@)
            &&& feed.newest is None
            &&& feed.whole()
        },
{
    lemma_size_was_probed(input, events);
}

/// The wait for ffprobe cannot hang in silence: it goes on only while ffprobe
/// runs and its time is not up. A node that opens and never streams is given
/// up on, and a device that will not open is one as soon as ffprobe exits.
pub proof fn law_the_probe_is_not_waited_for_forever(input: Seq<Seq<char>>, event: Event)
    requires
        expected(Stage::Waiting, event),
    ensures
        follows(input, Stage::Waiting, event).0 == Stage::Waiting <==> {
            event matches Event::Running(elapsed) && elapsed < STARTUP_TIMEOUT_MS
        },
        event matches Event::Exited(success, _) ==> (success
            || follows(input, Stage::Waiting, event).1 is Fail),
{
}

/// Opening is over exactly when it has said how it ended.
pub proof fn law_opening_ends_by_saying_so(input: Seq<Seq<char>>, stage: Stage, event: Event)
    requires
        expected(stage, event),
    ensures
        ({
            let (next, step) = follows(input, stage, event);
            next == Stage::Over <==> step is Opened || step is Fail || step is Kill
        }),
{
}

/// No camera is ever framed on a zero side.
pub proof fn law_a_probed_size_has_no_zero_side(events: Seq<Event>, size: (u32, u32))
    requires
        probed(events, size),
    ensures
        size.0 > 0,
        size.1 > 0,
{
}

/// ffprobe's way of printing a size, the two numbers with white space around
/// them, is read as that size.
pub proof fn law_a_printed_size_is_read(size: (u32, u32), before: Seq<char>, after: Seq<char>)
    requires
        size.0 > 0,
        size.1 > 0,
        forall|i: int| 0 <= i < before.len() ==> is_space(#[trigger] before[i]),
        forall|i: int| 0 <= i < after.len() ==> is_space(#[trigger] after[i]),
    ensures
        reported(before + size_text(size) + after) == Some(size),
    decreases before.len() + after.len(),
{
    let text = size_text(size);
    let whole = before + text + after;
    law_size_round_trip(size);
    // The text starts and ends with a digit, where the trimming stops.
    lemma_decimal_reads_back(size.0 as nat);
    lemma_decimal_reads_back(size.1 as nat);
    let width = decimal_text(size.0 as nat);
    let height = decimal_text(size.1 as nat);
    assert(text[0] == width[0] && is_digit(width[0]));
    assert(text.last() == height.last() && is_digit(height[height.len() - 1]));
    if before.len() > 0 {
        assert(whole.skip(1) =~= before.skip(1) + text + after);
        law_a_printed_size_is_read(size, before.skip(1), after);
    } else if after.len() > 0 {
        assert(whole.drop_last() =~= before + text + after.drop_last());
        law_a_printed_size_is_read(size, before, after.drop_last());
    } else {
        assert(whole =~= text);
    }
}

/// The camera is asked for a mode rather than scaled into one. The mode is
/// written so that it reads back as the size it is; it, the pixel format and
/// the rate come before `-i`, since behind it ffmpeg would read them as the
/// output's; and no filter is asked for.
pub proof fn law_the_camera_is_asked_for_a_mode(device: Seq<char>, size: (u32, u32))
    ensures
        ({
            let argv = v4l2_words(device, size);
            &&& argv.len() == 10
            &&& argv[2] == "-input_format"@ && argv[3] == "mjpeg"@
            &&& argv[4] == "-framerate"@ && argv[5] == "60"@
            &&& argv[6] == "-video_size"@ && dimensions(argv[7]) == Some(size)
            &&& argv[8] == "-i"@ && argv[9] == device
            &&& forall|i: int| 0 <= i < 8 ==> #[trigger] argv[i] != "-i"@
            &&& forall|i: int| 0 <= i < 9 ==> #[trigger] argv[i] != "-vf"@
        }),
{
    law_size_round_trip(size);
    lemma_decimal_reads_back(size.0 as nat);
    assert(size_text(size)[0] == decimal_text(size.0 as nat)[0]);
    reveal_strlit("-f");
    reveal_strlit("v4l2");
    reveal_strlit("-input_format");
    reveal_strlit("mjpeg");
    reveal_strlit("-framerate");
    reveal_strlit("60");
    reveal_strlit("-video_size");
    reveal_strlit("-i");
    reveal_strlit("-vf");
    assert("-i"@[0] == '-' && "-i"@[1] == 'i');
    let argv = v4l2_words(device, size);
    assert(argv[0].len() == 2 && argv[0][1] == 'f');
    assert(argv[1].len() == 4 && argv[2].len() == 13 && argv[3].len() == 5 && argv[4].len() == 10);
    assert(argv[5][0] == '6' && argv[6].len() == 11);
}

/// Nothing a device name can say becomes a flag: it changes the one word that
/// is the argument of `-i`, the last, and no other.
pub proof fn law_a_device_is_never_a_flag(a: Seq<char>, b: Seq<char>, size: (u32, u32))
    ensures
        v4l2_words(a, size).len() == v4l2_words(b, size).len(),
        v4l2_words(a, size).drop_last() == v4l2_words(b, size).drop_last(),
        v4l2_words(a, size).drop_last().last() == "-i"@,
        v4l2_words(a, size).last() == a,
{
}

/// What ffmpeg is asked of a webcam, for every device and mode: v4l2, MJPEG at
/// sixty frames a second, the mode width first, and the device, in that order.
pub proof fn law_what_a_webcam_is_asked_for(device: Seq<char>, width: u32, height: u32)
    ensures
        v4l2_words(device, (width, height)) == seq!["-f"@, "v4l2"@] + seq![
            "-input_format"@,
            "mjpeg"@,
        ] + seq!["-framerate"@, "60"@] + seq![
            "-video_size"@,
            decimal_text(width as nat) + seq!['x'] + decimal_text(height as nat),
        ] + seq!["-i"@, device],
{
    law_a_size_is_written_width_first(width, height);
    assert(v4l2_words(device, (width, height)) =~= seq!["-f"@, "v4l2"@] + seq![
        "-input_format"@,
        "mjpeg"@,
    ] + seq!["-framerate"@, "60"@] + seq![
        "-video_size"@,
        decimal_text(width as nat) + seq!['x'] + decimal_text(height as nat),
    ] + seq!["-i"@, device]);
}

/// What ffmpeg is run with, whatever its input: quietly and without a stdin,
/// the input as it is, and then no sound and raw RGBA down stdout.
pub proof fn law_ffmpeg_writes_raw_rgba(input: Seq<Seq<char>>)
    ensures
        ({
            let argv = capture_words(input);
            let n = input.len() as int;
            &&& argv.len() == n + 9
            &&& argv[0] == "-nostdin"@ && argv[1] == "-loglevel"@ && argv[2] == "error"@
            &&& argv.subrange(3, n + 3) == input
            &&& argv[n + 3] == "-an"@
            &&& argv[n + 4] == "-f"@ && argv[n + 5] == "rawvideo"@
            &&& argv[n + 6] == "-pix_fmt"@ && argv[n + 7] == "rgba"@
            &&& argv[n + 8] == "-"@
        }),
{
    assert(capture_words(input).subrange(3, input.len() as int + 3) =~= input);
}

/// Every webcam is read as RGBA, at whatever size it is asked for: the word
/// behind the one `-pix_fmt` that is written is `rgba`.
pub proof fn law_every_webcam_is_read_as_rgba(device: Seq<char>, width: u32, height: u32)
    ensures
        ({
            let argv = capture_words(v4l2_words(device, (width, height)));
            &&& argv.len() == 19
            &&& argv[16] == "-pix_fmt"@ && argv[17] == "rgba"@
            &&& forall|i: int|
                0 <= i < 19 && i != 12 && #[trigger] argv[i] == "-pix_fmt"@ ==> i == 16
            &&& argv[12] == device
        }),
{
    let input = v4l2_words(device, (width, height));
    let argv = capture_words(input);
    law_what_a_webcam_is_asked_for(device, width, height);
    law_ffmpeg_writes_raw_rgba(input);
    law_a_number_is_written_as_it_is_counted(width as nat, 0);
    reveal_strlit("-nostdin");
    reveal_strlit("-loglevel");
    reveal_strlit("error");
    reveal_strlit("-f");
    reveal_strlit("v4l2");
    reveal_strlit("-input_format");
    reveal_strlit("mjpeg");
    reveal_strlit("-framerate");
    reveal_strlit("60");
    reveal_strlit("-video_size");
    reveal_strlit("-i");
    reveal_strlit("-an");
    reveal_strlit("rawvideo");
    reveal_strlit("rgba");
    reveal_strlit("-");
    reveal_strlit("-pix_fmt");
    let format = "-pix_fmt"@;
    assert(format.len() == 8 && format[0] == '-' && format[1] == 'p');
    assert(argv[0].len() == 8 && argv[0][1] == 'n');
    assert(argv[1].len() == 9 && argv[2].len() == 5);
    assert forall|j: int| 0 <= j < 10 implies argv[j + 3] == #[trigger] input[j] by {
        assert(argv.subrange(3, 13)[j] == argv[j + 3]);
    }
    assert(input[0].len() == 2 && input[1].len() == 4 && input[2].len() == 13);
    assert(input[3].len() == 5 && input[4].len() == 10 && input[5].len() == 2);
    assert(input[6].len() == 11 && input[8].len() == 2 && input[9] == device);
    assert(input[7][0] == decimal_text(width as nat)[0]);
    assert(argv[13].len() == 3 && argv[14].len() == 2 && argv[15][0] == 'r');
    assert(argv[17].len() == 4 && argv[18].len() == 1);
    assert(argv[3] == input[0] && argv[4] == input[1] && argv[5] == input[2]);
    assert(argv[6] == input[3] && argv[7] == input[4] && argv[8] == input[5]);
    assert(argv[9] == input[6] && argv[10] == input[7] && argv[11] == input[8]);
    assert(argv[12] == input[9]);
}

/// What ffprobe is run with, whatever its input: to speak of errors only and
/// look at the first video stream of the input as it is, and to print the two
/// sides of its frames with an `x` between them.
pub proof fn law_ffprobe_prints_the_size(input: Seq<Seq<char>>)
    ensures
        ({
            let argv = probe_words(input);
            let n = input.len() as int;
            &&& argv.len() == n + 8
            &&& argv[0] == "-v"@ && argv[1] == "error"@
            &&& argv[2] == "-select_streams"@ && argv[3] == "v:0"@
            &&& argv.subrange(4, n + 4) == input
            &&& argv[n + 4] == "-show_entries"@ && argv[n + 5] == "stream=width,height"@
            &&& argv[n + 6] == "-of"@ && argv[n + 7] == "csv=s=x:p=0"@
        }),
{
    assert(probe_words(input).subrange(4, input.len() as int + 4) =~= input);
}

/// The size a camera has is the one ffprobe printed: what stands between the
/// white space around its output, read as a size, where neither side is zero.
pub proof fn law_the_size_is_what_was_printed(
    before: Seq<char>,
    inner: Seq<char>,
    after: Seq<char>,
    size: (u32, u32),
)
    requires
        forall|i: int| 0 <= i < before.len() ==> is_space(#[trigger] before[i]),
        forall|i: int| 0 <= i < after.len() ==> is_space(#[trigger] after[i]),
        inner.len() > 0 ==> !is_space(inner[0]) && !is_space(inner.last()),
    ensures
        reported(before + inner + after) == Some(size) <==> {
            &&& dimensions(inner) == Some(size)
            &&& size.0 > 0
            &&& size.1 > 0
        },
{
    law_trimming_takes_off_the_white_space_around(before, inner, after);
}

/// A program is named in a message by its name and its input, with spaces
/// between the words.
pub proof fn law_how_a_program_is_named(
    program: Seq<char>,
    input: Seq<Seq<char>>,
    word: Seq<char>,
)
    ensures
        called(program, Seq::empty()) == program + seq![' '],
        called(program, seq![word]) == program + seq![' '] + word,
        input.len() > 0 ==> called(program, input.push(word)) == called(program, input) + seq![' ']
            + word,
{
    reveal_strlit(" ");
    assert(" "@ =~= seq![' ']);
    assert(input.push(word).drop_last() =~= input);
    assert(called(program, Seq::empty()) =~= program + seq![' ']);
    if input.len() > 0 {
        assert(called(program, input.push(word)) =~= called(program, input) + seq![' '] + word);
    }
}

/// What a camera answers is what is handed on: a frame by its bytes, and
/// nothing new and the end as themselves.
pub proof fn law_an_answer_is_its_frame(pixels: Vec<u8>)
    ensures
        Frame::New(pixels)@ == Answer::New(pixels@),
        Frame::Same@ == Answer::Same,
        Frame::Ended@ == Answer::Ended,
{
}

/// What is to be done is what is said: each action holds its own words, sizes
/// and reasons.
pub proof fn law_an_action_is_its_step(
    argv: Vec<String>,
    size: (u32, u32),
    camera: Camera,
    why: String,
)
    ensures
        Action::Probe(argv)@ == Step::Probe(texts(argv@)),
        Action::Look@ == Step::Look,
        Action::Wait@ == Step::Wait,
        Action::Read@ == Step::Read,
        Action::Capture(argv, size)@ == Step::Capture(texts(argv@), size),
        Action::Await@ == Step::Await,
        Action::Opened(camera)@ == Step::Opened(camera@),
        Action::Fail(why)@ == Step::Fail(why@),
        Action::Kill(why)@ == Step::Kill(why@),
{
}

/// A process that cannot be started fails the opening at once, and says which
/// and why; one that can is looked at, or its first frame awaited.
pub proof fn law_what_comes_of_starting(
    input: Seq<Seq<char>>,
    width: u32,
    height: u32,
    why: String,
)
    ensures
        expected(Stage::Probing, Event::Started),
        expected(Stage::Probing, Event::NotStarted(why)),
        expected(Stage::Starting(width, height), Event::Started),
        expected(Stage::Starting(width, height), Event::NotStarted(why)),
        follows(input, Stage::Probing, Event::Started) == (Stage::Waiting, Step::Look),
        follows(input, Stage::Probing, Event::NotStarted(why)) == (
            Stage::Over,
            Step::Fail("ffprobe"@ + " "@ + joined(input, " "@) + ": cannot run ffprobe: "@ + why@),
        ),
        follows(input, Stage::Starting(width, height), Event::Started) == (
            Stage::Awaiting(width, height),
            Step::Await,
        ),
        follows(input, Stage::Starting(width, height), Event::NotStarted(why)) == (
            Stage::Over,
            Step::Fail("ffmpeg"@ + " "@ + joined(input, " "@) + ": cannot run ffmpeg: "@ + why@),
        ),
{
}

/// ffprobe has ten seconds, and not a look longer: until then it is waited
/// for, and then it is killed. One that exits well is read; one that does not,
/// or is lost, fails the opening there and then, with its own words.
pub proof fn law_what_comes_of_waiting(
    input: Seq<Seq<char>>,
    elapsed: u64,
    status: String,
    why: String,
)
    ensures
        expected(Stage::Waiting, Event::Running(elapsed)),
        expected(Stage::Waiting, Event::Exited(true, status)),
        expected(Stage::Waiting, Event::Exited(false, status)),
        expected(Stage::Waiting, Event::Lost(why)),
        elapsed < 10_000 ==> follows(input, Stage::Waiting, Event::Running(elapsed)) == (
            Stage::Waiting,
            Step::Wait,
        ),
        elapsed >= 10_000 ==> follows(input, Stage::Waiting, Event::Running(elapsed)) == (
            Stage::Over,
            Step::Kill("ffprobe"@ + " "@ + joined(input, " "@) + ": no answer in 10s"@),
        ),
        follows(input, Stage::Waiting, Event::Exited(true, status)) == (
            Stage::Reading,
            Step::Read,
        ),
        follows(input, Stage::Waiting, Event::Exited(false, status)) == (
            Stage::Over,
            Step::Fail(
                "ffprobe"@ + " "@ + joined(input, " "@) + ": "@ + status@
                    + "; ffprobe's own error is above"@,
            ),
        ),
        follows(input, Stage::Waiting, Event::Lost(why)) == (
            Stage::Over,
            Step::Fail("ffprobe"@ + " "@ + joined(input, " "@) + ": "@ + why@),
        ),
{
}

/// What ffprobe printed decides: where it names a size, ffmpeg is started for
/// frames of that size, and where it does not, or cannot be read, the opening
/// fails and shows it.
pub proof fn law_what_comes_of_reading(
    input: Seq<Seq<char>>,
    out: String,
    why: String,
    size: (u32, u32),
)
    ensures
        expected(Stage::Reading, Event::Output(out)),
        expected(Stage::Reading, Event::Unread(why)),
        reported(out@) == Some(size) ==> follows(input, Stage::Reading, Event::Output(out)) == (
            Stage::Starting(size.0, size.1),
            Step::Capture(capture_words(input), size),
        ),
        reported(out@) is None ==> follows(input, Stage::Reading, Event::Output(out)) == (
            Stage::Over,
            Step::Fail(
                "ffprobe"@ + " "@ + joined(input, " "@) + ": cannot read a size out of "@
                    + debug_text(out@),
            ),
        ),
        follows(input, Stage::Reading, Event::Unread(why)) == (
            Stage::Over,
            Step::Fail("ffprobe"@ + " "@ + joined(input, " "@) + ": "@ + why@),
        ),
{
}

/// A first frame, whole, opens the camera: it has the size that was probed,
/// and that frame to show until there is a newer. Without one the opening
/// fails, and says so.
pub proof fn law_what_comes_of_awaiting(
    input: Seq<Seq<char>>,
    width: u32,
    height: u32,
    frame: Vec<u8>,
    why: String,
)
    ensures
        frame@.len() == width * height * 4 ==> expected(
            Stage::Awaiting(width, height),
            Event::First(frame),
        ),
        expected(Stage::Awaiting(width, height), Event::NoFirst(why)),
        follows(input, Stage::Awaiting(width, height), Event::First(frame)) == (
            Stage::Over,
            Step::Opened(Feed { size: (width, height), first: Some(frame@), newest: None }),
        ),
        follows(input, Stage::Awaiting(width, height), Event::NoFirst(why)) == (
            Stage::Over,
            Step::Fail(
                "ffmpeg"@ + " "@ + joined(input, " "@) + ": no frame ("@ + why@
                    + "); ffmpeg's own error is above"@,
            ),
        ),
{
}

/// The frames that the channel had over `polls`, in order.
pub open spec fn received(polls: Seq<Polled>) -> Seq<Seq<u8>>
    decreases polls.len(),
{
    if polls.len() == 0 {
        Seq::empty()
    } else {
        match polls.last() {
            Polled::Frame(frame) => received(polls.drop_last()).push(frame@),
            _ => received(polls.drop_last()),
        }
    }
}

/// How many frames the channel had over `polls`.
pub open spec fn frames_in(polls: Seq<Polled>) -> nat {
    received(polls).len()
}

/// Whether `first`, and after it the frames that the channel had over `polls`,
/// are those of `stream`, read one after another.
pub open spec fn read_from(
    stream: Seq<u8>,
    size: (u32, u32),
    first: Seq<u8>,
    polls: Seq<Polled>,
) -> bool {
    &&& is_frame_of(stream, size, 0, first)
    &&& forall|i: int|
        0 <= i < polls.len() ==> (#[trigger] polls[i] matches Polled::Frame(frame) ==> is_frame_of(
            stream,
            size,
            frames_in(polls.take(i)) as int + 1,
            frame@,
        ))
}

/// There are no more frames than looks.
proof fn lemma_frames_in_is_bounded(polls: Seq<Polled>)
    ensures
        frames_in(polls) <= polls.len(),
    decreases polls.len(),
{
    if polls.len() > 0 {
        lemma_frames_in_is_bounded(polls.drop_last());
    }
}

/// Where every look had a frame, there are as many frames as looks.
proof fn lemma_all_frames(polls: Seq<Polled>)
    requires
        forall|i: int| 0 <= i < polls.len() ==> #[trigger] polls[i] is Frame,
    ensures
        frames_in(polls) == polls.len(),
    decreases polls.len(),
{
    if polls.len() > 0 {
        let before = polls.drop_last();
        assert forall|i: int| 0 <= i < before.len() implies #[trigger] before[i] is Frame by {
            assert(polls[i] is Frame);
        }
        lemma_all_frames(before);
        assert(polls[polls.len() - 1] is Frame);
    }
}

/// There are no fewer frames after more looks.
proof fn lemma_frames_in_grows(polls: Seq<Polled>, m: int, n: int)
    requires
        0 <= m <= n <= polls.len(),
    ensures
        frames_in(polls.take(m)) <= frames_in(polls.take(n)),
    decreases n,
{
    if m < n {
        lemma_frames_in_grows(polls, m, n - 1);
        assert(polls.take(n).drop_last() =~= polls.take(n - 1));
    }
}

/// The frame of a look is the one that follows those of the looks before it.
proof fn lemma_received_in_order(polls: Seq<Polled>, i: int)
    requires
        0 <= i < polls.len(),
        polls[i] is Frame,
    ensures
        frames_in(polls.take(i)) < frames_in(polls),
        polls[i] matches Polled::Frame(frame) && frame@ == received(
            polls,
        )[frames_in(polls.take(i)) as int],
    decreases polls.len(),
{
    let before = polls.drop_last();
    if i < before.len() {
        lemma_received_in_order(before, i);
        assert(before.take(i) =~= polls.take(i));
    } else {
        assert(before =~= polls.take(i));
    }
}

/// Frames that come out of the channel in the order in which a reader of
/// `reads` put them in are those of the stream, one after another.
proof fn lemma_read_from(feed: Feed, first: Seq<u8>, reads: Seq<Seq<u8>>, polls: Seq<Polled>)
    requires
        feed.first == Some(first),
        feed.size.0 > 0,
        feed.size.1 > 0,
        within(feed.size, reads),
        seq![first] + received(polls) == handed(feed.size, reads).take(
            (frames_in(polls) + 1) as int,
        ),
        frames_in(polls) + 1 <= handed(feed.size, reads).len(),
    ensures
        read_from(written(reads), feed.size, first, polls),
{
    let stream = written(reads);
    let frames = handed(feed.size, reads);
    let out = seq![first] + received(polls);
    law_a_stream_is_cut_into_whole_frames(feed.size, reads);
    assert(out[0] == first && frames[0] == first);
    assert forall|i: int| 0 <= i < polls.len() implies (#[trigger] polls[i] matches Polled::Frame(
        frame,
    ) ==> is_frame_of(stream, feed.size, frames_in(polls.take(i)) as int + 1, frame@)) by {
        if let Polled::Frame(frame) = polls[i] {
            lemma_received_in_order(polls, i);
            let k = frames_in(polls.take(i)) as int;
            assert(out[k + 1] == received(polls)[k]);
            assert(is_frame_of(stream, feed.size, k + 1, frames[k + 1]));
        }
    }
}

impl Feed {
    /// Collecting frames keeps the newest and drops the rest.
    proof fn lemma_drained(self, frames: Seq<Seq<u8>>)
        ensures
            self.drained(frames) == if frames.len() == 0 {
                self
            } else {
                self.collected(frames.last())
            },
        decreases frames.len(),
    {
        if frames.len() > 0 {
            self.collected(frames[0]).lemma_drained(frames.skip(1));
        }
    }

    /// What is shown is the newest frame there is, however many have queued
    /// up: older ones are dropped, and a camera with nothing new falls back on
    /// the frame it was opened with before it says so.
    pub proof fn law_the_newest_frame_is_shown(self, frames: Seq<Seq<u8>>, ended: bool)
        ensures
            self.drained(frames).answer(ended) == if frames.len() > 0 {
                Answer::New(frames.last())
            } else {
                self.answer(ended)
            },
            self.drained(frames).answered() == self.answered(),
    {
        self.lemma_drained(frames);
    }

    /// Frames stay whole: a camera that holds whole frames, and is handed one,
    /// holds whole frames, and whatever it shows is one of its size.
    pub proof fn law_frames_are_whole(self, polled: Polled)
        requires
            self.whole(),
            polled matches Polled::Frame(frame) ==> frame@.len() == spec_frame_bytes(self.size),
        ensures
            self.after(polled).whole(),
            self.after(polled).size == self.size,
            self.reply(polled) matches Some(Answer::New(shown)) ==> shown.len()
                == spec_frame_bytes(self.size),
    {
    }

    /// Looking at the channel changes no size.
    pub proof fn lemma_polled_size(self, polls: Seq<Polled>)
        ensures
            self.polled(polls).size == self.size,
        decreases polls.len(),
    {
        if polls.len() > 0 {
            self.lemma_polled_size(polls.drop_last());
        }
    }

    /// The channel had a frame at the look before, or there is none that it
    /// handed over.
    proof fn lemma_polled(self, polls: Seq<Polled>)
        requires
            self.newest is None,
        ensures
            polls.len() > 0 ==> match polls.last() {
                Polled::Frame(frame) => self.polled(polls).newest == Some(frame@),
                _ => self.polled(polls).pending() is None,
            },
            frames_in(polls) == polls.len() ==> self.polled(polls).first == self.first,
        decreases polls.len(),
    {
        lemma_frames_in_is_bounded(polls);
        if polls.len() > 0 {
            self.lemma_polled(polls.drop_last());
            lemma_frames_in_is_bounded(polls.drop_last());
        }
    }

    /// The first answer of a camera that has just been opened is a frame, and
    /// every frame it shows is one that was read whole: the one it was opened
    /// with, or the last that was handed over. None is torn, and what is left
    /// of a stream that ends inside a frame is never shown.
    pub proof fn law_whole_frames_are_shown(
        self,
        stream: Seq<u8>,
        first: Seq<u8>,
        polls: Seq<Polled>,
        n: int,
    )
        requires
            self.first == Some(first),
            self.newest is None,
            read_from(stream, self.size, first, polls),
            0 <= n < polls.len(),
        ensures
            self.reply_to(polls, n) matches Some(Answer::New(shown)) ==> {
                &&& is_frame_of(stream, self.size, frames_in(polls.take(n)) as int, shown)
                &&& shown.len() == spec_frame_bytes(self.size)
            },
            frames_in(polls.take(n)) == n && !(polls[n] is Frame) ==> {
                self.shows_at(polls, n)
            },
    {
        let before = polls.take(n);
        self.lemma_polled(before);
        if n > 0 {
            assert(before.drop_last() =~= polls.take(n - 1));
            assert(before.last() == polls[n - 1]);
        }
        let k = frames_in(before) as int;
        lemma_frame_length(self.size, k);
    }

    /// No frame is shown twice and none out of order: of two frames shown, the
    /// later is one that was read later.
    pub proof fn law_frames_are_shown_in_order(self, polls: Seq<Polled>, m: int, n: int)
        requires
            self.newest is None,
            0 <= m < n < polls.len(),
            self.shows_at(polls, m),
            self.shows_at(polls, n),
        ensures
            frames_in(polls.take(m)) < frames_in(polls.take(n)),
    {
        let before = polls.take(n);
        self.lemma_polled(before);
        assert(before.last() == polls[n - 1]);
        assert(before.drop_last() =~= polls.take(n - 1));
        assert(polls[n - 1] is Frame && !(polls[m] is Frame));
        lemma_frames_in_grows(polls, m, n - 1);
    }

    /// What a camera shows is its stream, whole and in order. However ffmpeg's
    /// output fell into `reads`, and however the display's looks fell between
    /// the frames that came of them, a camera that has opened shows a frame at
    /// its first answer, every frame it shows is one of the stream, all of it,
    /// and each comes later in the stream than the one shown before: none
    /// twice, none out of order, none torn, and never what is left of a stream
    /// that ends inside a frame.
    pub proof fn law_a_camera_shows_its_stream(
        self,
        input: Seq<Seq<char>>,
        events: Seq<Event>,
        reads: Seq<Seq<u8>>,
        polls: Seq<Polled>,
    )
        requires
            possible(input, events),
            progress(input, events).1 == Step::Opened(self),
            within(self.size, reads),
            self.relayed(reads, polls),
        ensures
            forall|n: int|
                0 <= n < polls.len() ==> match #[trigger] self.reply_to(polls, n) {
                    Some(Answer::New(shown)) => {
                        &&& shown.len() == spec_frame_bytes(self.size)
                        &&& is_frame_of(
                            written(reads),
                            self.size,
                            frames_in(polls.take(n)) as int,
                            shown,
                        )
                    },
                    Some(_) => exists|m: int| 0 <= m < n && !(#[trigger] polls[m] is Frame),
                    None => polls[n] is Frame,
                },
            forall|m: int, n: int|
                0 <= m < n < polls.len() && #[trigger] self.shows_at(polls, m)
                    && #[trigger] self.shows_at(polls, n) ==> frames_in(polls.take(m)) < frames_in(
                    polls.take(n),
                ),
    {
        law_the_size_comes_from_the_stream(input, events);
        law_a_probed_size_has_no_zero_side(events, self.size);
        let first = self.first->0;
        lemma_read_from(self, first, reads, polls);
        assert forall|n: int| 0 <= n < polls.len() implies match #[trigger] self.reply_to(
            polls,
            n,
        ) {
            Some(Answer::New(shown)) => {
                &&& shown.len() == spec_frame_bytes(self.size)
                &&& is_frame_of(written(reads), self.size, frames_in(polls.take(n)) as int, shown)
            },
            Some(_) => exists|m: int| 0 <= m < n && !(#[trigger] polls[m] is Frame),
            None => polls[n] is Frame,
        } by {
            self.law_whole_frames_are_shown(written(reads), first, polls, n);
            if forall|m: int| 0 <= m < n ==> #[trigger] polls[m] is Frame {
                lemma_all_frames(polls.take(n));
            }
        }
        assert forall|m: int, n: int|
            0 <= m < n < polls.len() && #[trigger] self.shows_at(polls, m)
                && #[trigger] self.shows_at(polls, n) implies frames_in(polls.take(m)) < frames_in(
            polls.take(n),
        ) by {
            self.law_frames_are_shown_in_order(polls, m, n);
        }
    }

    /// No frame is shown twice: once a camera has answered, only a frame that
    /// arrives afterwards is new.
    pub proof fn law_no_frame_is_shown_twice(self)
        ensures
            self.answered().answer(false) == Answer::Same,
            self.answered().answered() == self.answered(),
    {
    }

    /// A look that finds a frame is answered with another look, and the frame
    /// is the newest there is from then on; the camera keeps its size, and the
    /// frame it was opened with.
    pub proof fn law_a_look_that_finds_a_frame(self, frame: Vec<u8>)
        ensures
            self.reply(Polled::Frame(frame)) is None,
            self.after(Polled::Frame(frame)).newest == Some(frame@),
            self.after(Polled::Frame(frame)).first == self.first,
            self.after(Polled::Frame(frame)).size == self.size,
    {
    }

    /// A look that finds nothing is answered with the newest frame collected,
    /// or failing that with the one the camera was opened with, or failing
    /// both with nothing new, if the reader is there, and with the end, if it
    /// is gone. After it the camera holds no frame, and has the size it had.
    pub proof fn law_a_look_that_finds_nothing(self, pixels: Seq<u8>)
        ensures
            self.newest == Some(pixels) ==> {
                &&& self.reply(Polled::Empty) == Some(Answer::New(pixels))
                &&& self.reply(Polled::Disconnected) == Some(Answer::New(pixels))
            },
            self.newest is None && self.first == Some(pixels) ==> {
                &&& self.reply(Polled::Empty) == Some(Answer::New(pixels))
                &&& self.reply(Polled::Disconnected) == Some(Answer::New(pixels))
            },
            self.newest is None && self.first is None ==> {
                &&& self.reply(Polled::Empty) == Some(Answer::Same)
                &&& self.reply(Polled::Disconnected) == Some(Answer::Ended)
            },
            self.after(Polled::Empty) == (Feed { size: self.size, first: None, newest: None }),
            self.after(Polled::Disconnected) == (Feed {
                size: self.size,
                first: None,
                newest: None,
            }),
    {
    }

    /// The looks of a camera follow one another: what is held at one is what
    /// the one before it left.
    pub proof fn law_looks_follow_one_another(self, polls: Seq<Polled>, polled: Polled)
        ensures
            self.polled(Seq::empty()) == self,
            self.polled(polls.push(polled)) == self.polled(polls).after(polled),
            self.reply_to(polls.push(polled), polls.len() as int) == self.polled(polls).reply(
                polled,
            ),
    {
        assert(polls.push(polled).drop_last() =~= polls);
        assert(polls.push(polled).take(polls.len() as int) =~= polls);
    }

    /// A look that finds the reader gone is never answered with nothing new,
    /// whatever the camera and whatever its channel had before. Where the look
    /// before it found no frame, so that none is pending, it is answered with
    /// the end, and so is every later look that finds the reader gone.
    pub proof fn law_a_reader_that_is_gone_is_the_end(self, polls: Seq<Polled>, n: int)
        requires
            0 <= n < polls.len(),
            polls[n] == Polled::Disconnected,
        ensures
            self.reply_to(polls, n) != Some(Answer::Same),
            self.reply_to(polls, n) is Some,
            n > 0 && !(polls[n - 1] is Frame) ==> self.reply_to(polls, n) == Some(Answer::Ended),
            n == 0 && self.newest is None && self.first is None ==> self.reply_to(polls, n) == Some(
                Answer::Ended,
            ),
            n + 1 < polls.len() && polls[n + 1] == Polled::Disconnected ==> self.reply_to(
                polls,
                n + 1,
            ) == Some(Answer::Ended),
    {
        self.lemma_look(polls, n);
        if n + 1 < polls.len() {
            self.lemma_look(polls, n + 1);
        }
    }

    /// A look that finds nothing is answered with the frame of the look before
    /// it, where that found one; where it found none, nothing is new.
    pub proof fn law_the_frame_just_collected_is_shown(self, polls: Seq<Polled>, n: int)
        requires
            0 < n < polls.len(),
            !(polls[n] is Frame),
        ensures
            polls[n - 1] matches Polled::Frame(frame) ==> self.reply_to(polls, n) == Some(
                Answer::New(frame@),
            ),
            !(polls[n - 1] is Frame) && polls[n] == Polled::Empty ==> self.reply_to(polls, n)
                == Some(Answer::Same),
    {
        self.lemma_look(polls, n);
    }

    /// What a look leaves is what the next one finds held.
    proof fn lemma_look(self, polls: Seq<Polled>, n: int)
        requires
            0 <= n < polls.len(),
        ensures
            n == 0 ==> self.polled(polls.take(n)) == self,
            n > 0 ==> self.polled(polls.take(n)) == self.polled(polls.take(n - 1)).after(
                polls[n - 1],
            ),
    {
        if n > 0 {
            assert(polls.take(n).drop_last() =~= polls.take(n - 1));
        }
    }

    /// A camera that ends says so rather than going quiet: with the reader
    /// gone, the frames it had handed over come out in one answer at most, the
    /// answer after that is the end, and so is every later one.
    pub proof fn law_a_camera_that_ends_says_so(self)
        ensures
            self.answer(true) != Answer::Same,
            self.pending() is None ==> self.answer(true) == Answer::Ended,
            self.answered().answer(true) == Answer::Ended,
            self.answered().answered().answer(true) == Answer::Ended,
    {
    }
}

} // verus!
