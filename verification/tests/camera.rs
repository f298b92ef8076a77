use slitscan::camera::{
    capture_args, granted, probe_args, reported_size, unreadable, v4l2, Action, Camera, Event,
    Frame, Opening, Polled, PROBE_INTERVAL_MS, STARTUP_TIMEOUT_MS,
};
use slitscan::frame_bytes;
use slitscan::pipe::{Reader, Relay};

/// Where `arg` sits in an argument list, for the assertions about order.
fn at(argv: &[String], arg: &str) -> usize {
    argv.iter()
        .position(|a| a == arg)
        .unwrap_or_else(|| panic!("{arg} is not in {argv:?}"))
}

#[test]
fn the_camera_is_asked_for_a_mode_rather_than_scaled_into_one() {
    let argv = v4l2("/dev/video0", (1280, 720));
    assert!(argv.windows(2).any(|w| w == ["-f", "v4l2"]));
    assert!(argv.windows(2).any(|w| w == ["-i", "/dev/video0"]));
    assert!(argv.windows(2).any(|w| w == ["-video_size", "1280x720"]));
    assert!(argv.windows(2).any(|w| w == ["-input_format", "mjpeg"]));
    assert!(argv.windows(2).any(|w| w == ["-framerate", "60"]));
    // After -i these would be the output's options: -video_size scales the
    // frames instead of asking the driver for the mode, and -input_format
    // is not an output option at all.
    assert!(at(&argv, "-video_size") < at(&argv, "-i"));
    assert!(at(&argv, "-input_format") < at(&argv, "-i"));
    assert!(at(&argv, "-framerate") < at(&argv, "-i"));
    // A scaler here would throw away the sensor's shape, which is the one
    // thing the zoom-to-fill needs to know.
    assert!(!argv.iter().any(|a| a == "-vf"), "{argv:?}");
}

#[test]
fn a_device_name_is_never_a_flag() {
    let argv = v4l2("-vf scale=1:1", (1920, 1080));
    assert_eq!(
        argv,
        [
            "-f",
            "v4l2",
            "-input_format",
            "mjpeg",
            "-framerate",
            "60",
            "-video_size",
            "1920x1080",
            "-i",
            "-vf scale=1:1",
        ]
    );
}

/// One of ffmpeg's own generators, named the way a device is.
fn generator(spec: &str) -> Vec<String> {
    ["-f", "lavfi", "-i", spec].map(String::from).to_vec()
}

#[test]
fn the_input_stands_between_the_two_sides_of_each_command_line() {
    let input = generator("testsrc2=size=64x48:rate=30");
    assert_eq!(
        probe_args(&input),
        [
            "-v",
            "error",
            "-select_streams",
            "v:0",
            "-f",
            "lavfi",
            "-i",
            "testsrc2=size=64x48:rate=30",
            "-show_entries",
            "stream=width,height",
            "-of",
            "csv=s=x:p=0",
        ]
    );
    assert_eq!(
        capture_args(&input),
        [
            "-nostdin",
            "-loglevel",
            "error",
            "-f",
            "lavfi",
            "-i",
            "testsrc2=size=64x48:rate=30",
            "-an",
            "-f",
            "rawvideo",
            "-pix_fmt",
            "rgba",
            "-",
        ]
    );
}

#[test]
fn a_size_is_read_out_of_what_ffprobe_prints() {
    assert_eq!(reported_size("97x53\n"), Some((97, 53)));
    assert_eq!(reported_size(" \t1920x1080\r\n\n"), Some((1920, 1080)));
    for none in ["", "\n", "97", "97x", "x53", "0x53\n", "97x0\n", "97x53\n97x53\n", "N/AxN/A"] {
        assert_eq!(reported_size(none), None, "{none:?}");
    }
}

#[test]
fn output_that_names_no_size_is_shown_quoted() {
    let input = generator("color=c=red");
    assert_eq!(granted(&input, "97x53\n"), Ok((97, 53)));
    assert_eq!(
        granted(&input, "0x\"53\"\n"),
        Err("ffprobe -f lavfi -i color=c=red: cannot read a size out of \"0x\\\"53\\\"\\n\"".into())
    );
    assert_eq!(
        unreadable("ffprobe -i x", "\"\""),
        "ffprobe -i x: cannot read a size out of \"\""
    );
}

/// Opening a camera as far as ffprobe's output.
fn probed(input: &[String]) -> Opening {
    let (mut opening, action) = Camera::open(input.to_vec());
    assert!(matches!(action, Action::Probe(argv) if argv == probe_args(&input.to_vec())));
    assert!(matches!(opening.next(Event::Started), Action::Look));
    assert!(matches!(opening.next(Event::Running(0)), Action::Wait));
    assert!(matches!(
        opening.next(Event::Running(STARTUP_TIMEOUT_MS - 1)),
        Action::Wait
    ));
    assert!(matches!(
        opening.next(Event::Exited(true, "exit status: 0".into())),
        Action::Read
    ));
    opening
}

/// A camera opened on a first frame of `first`.
fn opened(out: &str, first: Vec<u8>) -> Camera {
    opened_on("color=c=red:s=97x53:r=30", out, first)
}

/// A camera opened on the generator `spec`, whose ffprobe prints `out` and
/// whose first frame is `first`.
fn opened_on(spec: &str, out: &str, first: Vec<u8>) -> Camera {
    let input = generator(spec);
    let mut opening = probed(&input);
    let Action::Capture(argv, size) = opening.next(Event::Output(out.into())) else {
        panic!("a size was not read out of {out:?}")
    };
    assert_eq!(argv, capture_args(&input));
    assert!(matches!(opening.next(Event::Started), Action::Await));
    let Action::Opened(camera) = opening.next(Event::First(first)) else {
        panic!("a camera with a first frame did not open")
    };
    assert_eq!(camera.size(), size);
    camera
}

/// What a reader hands over of `stream`, read a few thousand bytes at a time.
fn frames_of(stream: &[u8], size: (u32, u32)) -> Vec<Vec<u8>> {
    let mut reader = Reader::new(size);
    let mut rest = stream;
    let mut frames = vec![];
    loop {
        let (read, more) = rest.split_at(reader.wanted().min(4096).min(rest.len()));
        rest = more;
        match reader.next(read.to_vec()) {
            Relay::More => {}
            Relay::Hand(frame) => frames.push(frame),
            Relay::Stop => return frames,
        }
    }
}

#[test]
fn a_camera_delivers_whole_frames_of_the_size_it_negotiated() {
    // 97x53: nothing that is asked for says that size, so it can only have
    // come from the stream, and a size taken from the request instead is what
    // shears every frame. Odd on both axes as well, so a stride rounded
    // anywhere would not divide it.
    let size = (97, 53);
    // Red, so a channel swap on the way cannot pass.
    let mut stream = [254, 0, 0, 255].repeat(97 * 53 * 2);
    stream.extend([254, 0]);
    let frames = frames_of(&stream, size);
    assert_eq!(frames.len(), 2);
    let mut camera = opened_on("color=c=red:s=97x53:r=30", "97x53\n", frames[0].clone());
    assert_eq!(camera.size(), size);
    let Some(Frame::New(frame)) = camera.frame(Polled::Empty) else {
        panic!("open waits for a first frame")
    };
    assert_eq!(frame.len(), frame_bytes(size));
    assert!(
        frame
            .chunks_exact(4)
            .all(|p| p[0] > 200 && p[1] < 40 && p[2] < 40 && p[3] == 255),
        "not opaque red"
    );
}

#[test]
fn a_camera_that_will_not_open_says_so_at_once() {
    // Half the contract is the "at once": ffprobe cannot open this and exits,
    // so the wait ends there instead of running out the ten seconds that a
    // first frame is given.
    let input = ["-f", "v4l2", "-i", "/dev/definitely-not-a-camera"].map(String::from);
    let (mut opening, action) = Camera::open(input.to_vec());
    assert!(matches!(action, Action::Probe(argv) if argv == probe_args(&input.to_vec())));
    assert!(matches!(opening.next(Event::Started), Action::Look));
    let mut elapsed = 0;
    while elapsed < 3 * PROBE_INTERVAL_MS {
        assert!(matches!(opening.next(Event::Running(elapsed)), Action::Wait));
        elapsed += PROBE_INTERVAL_MS;
    }
    let Action::Fail(why) = opening.next(Event::Exited(false, "exit status: 1".into())) else {
        panic!("a device that is not there opened")
    };
    assert!(why.contains("definitely-not-a-camera"), "{why}");
    assert!(elapsed < STARTUP_TIMEOUT_MS / 2, "{elapsed}");
}

#[test]
fn a_camera_keeps_producing_frames_after_the_first() {
    let size = (64, 48);
    // Four frames that differ, and the start of a fifth.
    let stream: Vec<u8> = (0..frame_bytes(size) * 4 + 7)
        .map(|i| (i / frame_bytes(size)) as u8)
        .collect();
    let frames = frames_of(&stream, size);
    assert_eq!(frames.len(), 4);
    let mut camera = opened_on("testsrc2=size=64x48:rate=30", "64x48\n", frames[0].clone());
    // The display looks more often than the camera delivers, and once less.
    let polls = [
        Polled::Empty,
        Polled::Empty,
        Polled::Frame(frames[1].clone()),
        Polled::Frame(frames[2].clone()),
        Polled::Empty,
        Polled::Empty,
        Polled::Frame(frames[3].clone()),
        Polled::Empty,
    ];
    let mut seen = vec![];
    for polled in polls {
        match camera.frame(polled) {
            Some(Frame::New(frame)) => {
                assert_eq!(frame.len(), frame_bytes(camera.size()));
                seen.push(frame);
            }
            Some(Frame::Same) | None => {}
            Some(Frame::Ended) => panic!("the camera ended after {} frames", seen.len()),
        }
    }
    assert_eq!(seen.len(), 3, "the pipe stopped after the first frame");
    // Each a frame of the stream, none twice and none out of order.
    assert_eq!(seen, [frames[0].clone(), frames[2].clone(), frames[3].clone()]);
}

#[test]
fn a_camera_that_ends_says_so_rather_than_going_quiet() {
    // A source with a duration: ffmpeg reaches the end of it and exits, and
    // the channel is disconnected, as when a webcam is unplugged.
    let size = (32, 32);
    let blue = [0, 0, 255, 255].repeat(32 * 32);
    let spec = "color=c=blue:s=32x32:r=30:d=0.2";
    let mut camera = opened_on(spec, "32x32\n", blue.clone());
    assert_eq!(camera.size(), size);
    // Six frames at thirty a second are 0.2 seconds.
    for _ in 1..6 {
        assert_eq!(camera.frame(Polled::Frame(blue.clone())), None);
    }
    let mut looks = 0;
    loop {
        match camera.frame(Polled::Disconnected) {
            Some(Frame::Ended) => break,
            _ if looks > 1 => panic!("never reported the end"),
            _ => looks += 1,
        }
    }
    assert_eq!(looks, 1, "the last frame goes out first");
}

#[test]
fn the_size_comes_from_the_stream_rather_than_from_the_request() {
    let input = v4l2("/dev/video0", (1920, 1080));
    let mut opening = probed(&input);
    let Action::Capture(_, size) = opening.next(Event::Output("640x480\n".into())) else {
        panic!("ffmpeg was not started")
    };
    assert_eq!(size, (640, 480));
    let first = vec![0; frame_bytes((97, 53))];
    assert_eq!(opened("97x53\n", first).size(), (97, 53));
}

/// Why opening fails when `events` happen, and whether ffprobe is killed.
fn failure(events: Vec<Event>) -> (String, bool) {
    let (mut opening, mut last) = Camera::open(generator("color=c=red"));
    for event in events {
        last = opening.next(event);
    }
    match last {
        Action::Fail(why) => (why, false),
        Action::Kill(why) => (why, true),
        _ => panic!("opening did not fail"),
    }
}

#[test]
fn every_way_a_camera_will_not_open_says_so() {
    let exited = || Event::Exited(true, "exit status: 0".into());
    let output = || Event::Output("97x53\n".into());
    assert_eq!(
        failure(vec![Event::NotStarted("no such file".into())]),
        (
            "ffprobe -f lavfi -i color=c=red: cannot run ffprobe: no such file".into(),
            false
        )
    );
    assert_eq!(
        failure(vec![Event::Started, Event::Lost("no child".into())]),
        ("ffprobe -f lavfi -i color=c=red: no child".into(), false)
    );
    assert_eq!(
        failure(vec![Event::Started, Event::Running(STARTUP_TIMEOUT_MS)]),
        (
            "ffprobe -f lavfi -i color=c=red: no answer in 10s".into(),
            true
        )
    );
    assert_eq!(
        failure(vec![
            Event::Started,
            Event::Exited(false, "exit status: 1".into())
        ]),
        (
            "ffprobe -f lavfi -i color=c=red: exit status: 1; ffprobe's own error is above".into(),
            false
        )
    );
    assert_eq!(
        failure(vec![
            Event::Started,
            exited(),
            Event::Unread("not UTF-8".into())
        ]),
        ("ffprobe -f lavfi -i color=c=red: not UTF-8".into(), false)
    );
    assert_eq!(
        failure(vec![Event::Started, exited(), Event::Output("".into())]),
        (
            "ffprobe -f lavfi -i color=c=red: cannot read a size out of \"\"".into(),
            false
        )
    );
    assert_eq!(
        failure(vec![
            Event::Started,
            exited(),
            output(),
            Event::NotStarted("no such file".into())
        ]),
        (
            "ffmpeg -f lavfi -i color=c=red: cannot run ffmpeg: no such file".into(),
            false
        )
    );
    assert_eq!(
        failure(vec![
            Event::Started,
            exited(),
            output(),
            Event::Started,
            Event::NoFirst("timed out".into())
        ]),
        (
            "ffmpeg -f lavfi -i color=c=red: no frame (timed out); ffmpeg's own error is above"
                .into(),
            false
        )
    );
}

#[test]
fn a_slow_probe_is_given_ten_seconds() {
    assert_eq!(STARTUP_TIMEOUT_MS, 10_000);
    assert_eq!(PROBE_INTERVAL_MS, 20);
}

#[test]
fn the_frame_that_proved_the_camera_works_is_a_fallback() {
    // Nothing newer: the first frame is what there is, once.
    let mut camera = opened("1x1\n", vec![1; 4]);
    assert_eq!(camera.frame(Polled::Empty), Some(Frame::New(vec![1; 4])));
    assert_eq!(camera.frame(Polled::Empty), Some(Frame::Same));
    // Something newer: the first frame is never shown.
    let mut camera = opened("1x1\n", vec![1; 4]);
    assert_eq!(camera.frame(Polled::Frame(vec![2; 4])), None);
    assert_eq!(camera.frame(Polled::Empty), Some(Frame::New(vec![2; 4])));
    assert_eq!(camera.frame(Polled::Empty), Some(Frame::Same));
}

#[test]
fn only_the_newest_of_a_backlog_is_shown() {
    let mut camera = opened("1x1\n", vec![0; 4]);
    for frame in 1..5 {
        assert_eq!(camera.frame(Polled::Frame(vec![frame; 4])), None);
    }
    assert_eq!(camera.frame(Polled::Empty), Some(Frame::New(vec![4; 4])));
    assert_eq!(camera.frame(Polled::Empty), Some(Frame::Same));
}

#[test]
fn the_last_frame_goes_out_before_the_end_is_reported() {
    let mut camera = opened("1x1\n", vec![0; 4]);
    assert_eq!(camera.frame(Polled::Frame(vec![7; 4])), None);
    assert_eq!(camera.frame(Polled::Disconnected), Some(Frame::New(vec![7; 4])));
    assert_eq!(camera.frame(Polled::Disconnected), Some(Frame::Ended));
    assert_eq!(camera.frame(Polled::Disconnected), Some(Frame::Ended));
    // The first frame counts as one that was handed over.
    let mut camera = opened("1x1\n", vec![0; 4]);
    assert_eq!(camera.frame(Polled::Disconnected), Some(Frame::New(vec![0; 4])));
    assert_eq!(camera.frame(Polled::Disconnected), Some(Frame::Ended));
}
