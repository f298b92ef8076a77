use slitscan::args::{self, Args};
use slitscan::sweep::Sweep;

fn parse(argv: &[&str]) -> Result<Option<Args>, String> {
    args::parse(argv.iter().map(|a| a.to_string()).collect())
}

#[test]
fn no_flags_is_the_piece_as_it_is_installed() {
    assert_eq!(parse(&[]), Ok(Some(Args::default())));
}

#[test]
fn each_flag_sets_its_own_field_and_nothing_else() {
    let d = Args::default();
    assert_eq!(
        parse(&["--device", "/dev/video2"]),
        Ok(Some(Args {
            device: "/dev/video2".into(),
            ..d.clone()
        }))
    );
    assert_eq!(
        parse(&["--capture", "1280x720"]),
        Ok(Some(Args {
            capture: (1280, 720),
            ..d.clone()
        }))
    );
    assert_eq!(
        parse(&["--sweep", "top-to-bottom"]),
        Ok(Some(Args {
            sweep: Sweep::TopToBottom,
            ..d
        }))
    );
}

#[test]
fn help_is_not_a_run_and_not_an_error() {
    assert_eq!(parse(&["--help"]), Ok(None));
    assert_eq!(parse(&["--device", "/dev/video0", "-h"]), Ok(None));
}

#[test]
fn what_cannot_be_run_says_so_rather_than_being_guessed_at() {
    for argv in [
        vec!["--zoom", "2"],
        vec!["--capture"],
        vec!["--capture", "1920"],
        vec!["--capture", "1920x"],
        vec!["--capture", "0x1080"],
        vec!["--sweep", "diagonal"],
        vec!["/dev/video0"],
    ] {
        let Err(why) = parse(&argv) else {
            panic!("{argv:?} was accepted")
        };
        assert!(!why.is_empty(), "{argv:?}");
    }
}

#[test]
fn each_refusal_names_what_was_refused() {
    let refusal = |argv: &[&str]| parse(argv).unwrap_err();
    assert_eq!(refusal(&["--zoom", "2"]), "unknown flag --zoom");
    assert_eq!(refusal(&["/dev/video0"]), "unknown flag /dev/video0");
    assert_eq!(refusal(&["--device"]), "--device wants a value after it");
    assert_eq!(refusal(&["--capture"]), "--capture wants a value after it");
    assert_eq!(refusal(&["--sweep"]), "--sweep wants a value after it");
    assert_eq!(
        refusal(&["--capture", "1920"]),
        "1920 is not a size like 1920x1080"
    );
    assert_eq!(
        refusal(&["--capture", "0x1080"]),
        "0x1080 has a zero side"
    );
    assert_eq!(
        refusal(&["--sweep", "diagonal"]),
        "unknown sweep diagonal; one of \
         left-to-right | right-to-left | top-to-bottom | bottom-to-top"
    );
}

#[test]
fn the_installed_piece_is_the_webcam_left_to_right() {
    let d = Args::default();
    assert_eq!(d.device, "/dev/video0");
    assert_eq!(d.capture, (1920, 1080));
    assert_eq!(d.sweep, Sweep::LeftToRight);
}

#[test]
fn flags_add_up_and_the_last_of_a_kind_wins() {
    assert_eq!(
        parse(&[
            "--sweep",
            "right-to-left",
            "--device",
            "/dev/video2",
            "--capture",
            "640x480",
            "--sweep",
            "bottom-to-top",
        ]),
        Ok(Some(Args {
            device: "/dev/video2".into(),
            capture: (640, 480),
            sweep: Sweep::BottomToTop,
        }))
    );
}

#[test]
fn words_are_read_in_order() {
    // The first thing wrong is what is reported, and help before it wins.
    assert_eq!(parse(&["--capture", "0x0", "--help"]).unwrap_err(), "0x0 has a zero side");
    assert_eq!(parse(&["--help", "--zoom"]), Ok(None));
    // What follows a flag is its value, whatever it looks like.
    assert_eq!(
        parse(&["--device", "--help"]),
        Ok(Some(Args {
            device: "--help".into(),
            ..Args::default()
        }))
    );
}

#[test]
fn a_size_is_two_numbers_with_an_x_between() {
    assert_eq!(args::size("1x1"), Ok((1, 1)));
    assert_eq!(args::size("+64x0036"), Ok((64, 36)));
    assert_eq!(args::size("4294967295x4294967295"), Ok((u32::MAX, u32::MAX)));
    for bad in ["", "x", "1x", "x1", "1", "1x1x1", "1X1", " 1x1", "1x-1", "4294967296x1", "+x+"] {
        assert_eq!(
            args::size(bad),
            Err(format!("{bad} is not a size like 1920x1080")),
            "{bad:?}"
        );
    }
    for zero in ["0x1", "1x0", "0x0", "00x+0"] {
        assert_eq!(args::size(zero), Err(format!("{zero} has a zero side")));
    }
}

#[test]
fn the_usage_says_what_each_flag_is_without_it() {
    assert_eq!(
        args::usage(),
        "usage: slitscan [--device PATH] [--capture WxH] [--sweep DIRECTION]\n\
         \x20 --device   v4l2 node the camera is on (default /dev/video0)\n\
         \x20 --capture  mode to ask the camera for (default 1920x1080)\n\
         \x20 --sweep    which way the writing line travels (default left-to-right)\n\
         \x20            one of: left-to-right | right-to-left | top-to-bottom | bottom-to-top\n"
    );
}
