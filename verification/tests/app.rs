use slitscan::app::{
    acquire, first_set, surface_format, Acquired, App, Live, Outcome, Reaction, Surface, Task,
    WindowEvent, RETRY_MS,
};
use slitscan::camera::{Action, Camera, Event, Polled};
use slitscan::frame_bytes;
use slitscan::sweep::Sweep;
use wgpu::TextureFormat as Format;

/// A camera whose frames are 97x53, opened on a frame of zeros.
fn camera() -> Camera {
    let (mut opening, _) = Camera::open(vec![]);
    opening.next(Event::Started);
    opening.next(Event::Exited(true, "exit status: 0".into()));
    opening.next(Event::Output("97x53\n".into()));
    opening.next(Event::Started);
    match opening.next(Event::First(vec![0; frame_bytes((97, 53))])) {
        Action::Opened(camera) => camera,
        _ => panic!("the camera did not open"),
    }
}

fn live(app: &App) -> &Live {
    app.live().expect("there is a window")
}

/// All that is done to display a frame, where the surface hands over `surface`
/// and the camera's channel has `polls`, one look after another.
fn displayed(app: &mut App, surface: Surface, polls: Vec<Polled>) -> Vec<Task> {
    let mut polls = polls.into_iter();
    let mut tasks = vec![app.render(Outcome::Begun)];
    loop {
        let outcome = match tasks.last().unwrap() {
            Task::Acquire => Outcome::Surface(surface),
            Task::Look => Outcome::Polled(polls.next().expect("a look too many")),
            Task::Over(_) => break,
            _ => Outcome::Done,
        };
        let task = app.render(outcome);
        tasks.push(task);
    }
    assert_eq!(polls.next(), None, "a look too few");
    tasks
}

/// The line that a displayed frame writes.
fn line(tasks: &[Task]) -> Option<(u32, u32, u32, u32)> {
    tasks.iter().find_map(|task| match task {
        Task::Write(pass) => pass.scissor,
        _ => None,
    })
}

/// The names of what is done.
fn names(tasks: &[Task]) -> Vec<&'static str> {
    tasks
        .iter()
        .map(|task| match task {
            Task::Acquire => "acquire",
            Task::Look => "look",
            Task::Upload(..) => "upload",
            Task::Write(_) => "write",
            Task::Present(_) => "present",
            Task::Configure => "configure",
            Task::Wait => "wait",
            Task::Over(Ok(())) => "over",
            Task::Over(Err(_)) => "stop",
        })
        .collect()
}

#[test]
fn the_first_srgb_format_is_the_surfaces() {
    assert_eq!(
        surface_format(&vec![
            Format::Bgra8Unorm,
            Format::Bgra8UnormSrgb,
            Format::Rgba8UnormSrgb,
        ]),
        Some(1)
    );
    assert_eq!(surface_format(&vec![Format::Rgba8UnormSrgb]), Some(0));
    assert_eq!(
        surface_format(&vec![Format::Rgba8Unorm, Format::Rgba16Float]),
        None
    );
    assert_eq!(surface_format(&vec![]), None);
}

#[test]
fn the_first_flag_set_is_found() {
    assert_eq!(first_set(&vec![false, true, true]), Some(1));
    assert_eq!(first_set(&vec![false, false]), None);
    assert_eq!(first_set(&vec![]), None);
}

#[test]
fn every_way_a_surface_answers_is_handled() {
    let skip = |reconfigure, wait| Acquired::Skip { reconfigure, wait };
    assert_eq!(acquire(Surface::Success), Acquired::Draw { stale: false });
    assert_eq!(acquire(Surface::Suboptimal), Acquired::Draw { stale: true });
    assert_eq!(acquire(Surface::Outdated), skip(true, true));
    assert_eq!(acquire(Surface::Occluded), skip(false, true));
    assert_eq!(acquire(Surface::Timeout), skip(false, false));
    assert_eq!(
        acquire(Surface::Lost),
        Acquired::Stop("the surface was lost".into())
    );
    assert_eq!(
        acquire(Surface::Validation),
        Acquired::Stop("the surface refused the request".into())
    );
    assert_eq!(RETRY_MS, 16);
}

#[test]
fn nothing_happens_before_there_is_a_window() {
    let mut app = App::new(Sweep::LeftToRight, camera());
    for event in [
        WindowEvent::CloseRequested,
        WindowEvent::Resized(1, 1),
        WindowEvent::RedrawRequested,
        WindowEvent::KeyboardInput {
            pressed: true,
            escape: true,
        },
        WindowEvent::Other,
    ] {
        assert_eq!(app.window_event(event), Reaction::Nothing);
    }
    assert!(app.live().is_none());
}

#[test]
fn a_window_is_taken_in_once_and_is_never_empty() {
    let mut app = App::new(Sweep::TopToBottom, camera());
    app.resumed((0, 1080));
    assert_eq!(live(&app).size(), (1, 1080));
    assert_eq!(live(&app).span(), 1080);
    app.resumed((1920, 1080));
    assert_eq!(live(&app).size(), (1, 1080));
}

#[test]
fn escape_and_closing_leave_and_other_keys_do_not() {
    let mut app = App::new(Sweep::LeftToRight, camera());
    app.resumed((1920, 1080));
    let key = |pressed, escape| WindowEvent::KeyboardInput { pressed, escape };
    assert_eq!(app.window_event(key(true, true)), Reaction::Exit);
    assert_eq!(app.window_event(key(false, true)), Reaction::Nothing);
    assert_eq!(app.window_event(key(true, false)), Reaction::Nothing);
    assert_eq!(app.window_event(WindowEvent::CloseRequested), Reaction::Exit);
    assert_eq!(app.window_event(WindowEvent::Other), Reaction::Nothing);
    assert_eq!(
        app.window_event(WindowEvent::RedrawRequested),
        Reaction::Render
    );
    assert_eq!(app.leave(Ok(())), Ok(()));
}

#[test]
fn only_a_new_size_starts_the_field_again() {
    let mut app = App::new(Sweep::LeftToRight, camera());
    app.resumed((8, 4));
    displayed(&mut app, Surface::Success, vec![Polled::Empty]);
    for x in 1..3 {
        let tasks = displayed(&mut app, Surface::Success, vec![Polled::Empty]);
        assert_eq!(line(&tasks), Some((x, 0, 1, 4)));
    }
    for (width, height) in [(8, 4), (0, 4), (8, 0), (0, 0)] {
        assert_eq!(
            app.window_event(WindowEvent::Resized(width, height)),
            Reaction::Nothing
        );
    }
    let tasks = displayed(&mut app, Surface::Success, vec![Polled::Empty]);
    assert_eq!(line(&tasks), Some((3, 0, 1, 4)));
    assert_eq!(
        app.window_event(WindowEvent::Resized(16, 9)),
        Reaction::Rebuild
    );
    assert_eq!(live(&app).size(), (16, 9));
    assert_eq!(live(&app).frames(), 0);
    let tasks = displayed(&mut app, Surface::Success, vec![Polled::Empty]);
    assert_eq!(line(&tasks), Some((0, 0, 1, 9)));
    assert_eq!(live(&app).frames(), 1);
}

#[test]
fn a_new_frame_is_uploaded_and_an_old_one_is_not() {
    let mut app = App::new(Sweep::LeftToRight, camera());
    app.resumed((8, 4));
    let tasks = displayed(&mut app, Surface::Success, vec![Polled::Empty]);
    assert_eq!(
        names(&tasks),
        ["acquire", "look", "upload", "write", "present", "over"]
    );
    let Task::Upload(pixels, upload) = &tasks[2] else {
        panic!("the first frame is new")
    };
    assert_eq!(pixels, &vec![0; frame_bytes((97, 53))]);
    assert_eq!((upload.bytes_per_row, upload.rows), (97 * 4, 53));
    let Task::Present(present) = &tasks[4] else {
        panic!("the field is shown")
    };
    assert_eq!((present.scissor, present.clear), (None, true));
    assert_eq!(
        names(&displayed(&mut app, Surface::Success, vec![Polled::Empty])),
        ["acquire", "look", "write", "present", "over"]
    );
}

#[test]
fn the_camera_is_drained_before_its_newest_frame_is_uploaded() {
    let mut app = App::new(Sweep::LeftToRight, camera());
    app.resumed((8, 4));
    let frame = |byte| vec![byte; frame_bytes((97, 53))];
    let polls = vec![
        Polled::Frame(frame(1)),
        Polled::Frame(frame(2)),
        Polled::Empty,
    ];
    let tasks = displayed(&mut app, Surface::Suboptimal, polls);
    // A surface that no longer matches is configured again last of all.
    assert_eq!(
        names(&tasks),
        ["acquire", "look", "look", "look", "upload", "write", "present", "configure", "over"]
    );
    assert!(matches!(&tasks[4], Task::Upload(pixels, _) if *pixels == frame(2)));
}

#[test]
fn a_missed_frame_neither_asks_the_camera_nor_moves_the_line() {
    let mut app = App::new(Sweep::LeftToRight, camera());
    app.resumed((8, 4));
    for (surface, done) in [
        (Surface::Outdated, vec!["acquire", "configure", "wait", "over"]),
        (Surface::Occluded, vec!["acquire", "wait", "over"]),
        (Surface::Timeout, vec!["acquire", "over"]),
        (Surface::Lost, vec!["acquire", "stop"]),
        (Surface::Validation, vec!["acquire", "stop"]),
    ] {
        assert_eq!(names(&displayed(&mut app, surface, vec![])), done);
        assert_eq!(live(&app).frames(), 0);
    }
    // The frame it was opened with is still the camera's first.
    let tasks = displayed(&mut app, Surface::Success, vec![Polled::Empty]);
    assert!(matches!(&tasks[2], Task::Upload(..)));
    assert_eq!(line(&tasks), Some((0, 0, 1, 4)));
}

#[test]
fn a_dead_camera_stops_the_piece_with_a_reason() {
    let mut app = App::new(Sweep::LeftToRight, camera());
    app.resumed((8, 4));
    // The frame it had handed over is drawn first.
    let tasks = displayed(&mut app, Surface::Success, vec![Polled::Disconnected]);
    assert_eq!(
        names(&tasks),
        ["acquire", "look", "upload", "write", "present", "over"]
    );
    let tasks = displayed(&mut app, Surface::Suboptimal, vec![Polled::Disconnected]);
    assert_eq!(
        tasks,
        [
            Task::Acquire,
            Task::Look,
            Task::Over(Err("the camera ended".into()))
        ]
    );
    assert_eq!(live(&app).frames(), 1);
    assert_eq!(app.leave(Ok(())), Err("the camera ended".into()));
}

#[test]
fn the_reason_for_stopping_comes_before_the_loops_own() {
    let stopped = |surface| {
        let mut app = App::new(Sweep::LeftToRight, camera());
        app.resumed((8, 4));
        displayed(&mut app, surface, vec![]);
        app
    };
    assert_eq!(
        stopped(Surface::Lost).leave(Err("the loop broke".into())),
        Err("the surface was lost".into())
    );
    assert_eq!(
        stopped(Surface::Validation).leave(Ok(())),
        Err("the surface refused the request".into())
    );
    assert_eq!(
        stopped(Surface::Timeout).leave(Err("the loop broke".into())),
        Err("the loop broke".into())
    );
    assert_eq!(stopped(Surface::Timeout).leave(Ok(())), Ok(()));
}

#[test]
fn a_piece_says_what_it_is_made_of() {
    let app = App::new(Sweep::BottomToTop, camera());
    assert_eq!(app.camera_size(), (97, 53));
    assert_eq!(app.sweep(), Sweep::BottomToTop);
}
