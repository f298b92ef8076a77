//! The command line. Three settings, so there is no argument parser here:
//! every flag takes exactly one value and an unknown one is an error, which
//! is the whole grammar.

use vstd::prelude::*;

use crate::sweep::Sweep;
use crate::text::{
    characters, decimal, decimal_text, dimensions, law_size_round_trip, parse_dimensions, same,
    size_text, texts,
};

verus! {

#[derive(Debug, PartialEq)]
pub struct Args {
    /// The v4l2 node the camera is on.
    pub device: String,
    /// The mode to ask the camera for, in its own pixels. A *request*: a
    /// driver may answer with a different size, and that answer is what gets
    /// used and what the startup line reports.
    ///
    /// Not the display's size. The field is written one line at a time, so
    /// the whole camera frame is uploaded sixty times a second and never
    /// looked at at more than one line's worth of detail; 4K of that is
    /// 2 GB/s down a pipe for no visible gain.
    pub capture: (u32, u32),
    pub sweep: Sweep,
}

/// What [`Args`] holds.
pub ghost struct Settings {
    pub device: Seq<char>,
    pub capture: (u32, u32),
    pub sweep: Sweep,
}

impl View for Args {
    type V = Settings;

    open spec fn view(&self) -> Settings {
        Settings { device: self.device@, capture: self.capture, sweep: self.sweep }
    }
}

impl Settings {
    /// The piece as it is installed.
    pub open spec fn installed() -> Settings {
        Settings {
            device: "/dev/video0"@,
            capture: (1920u32, 1080u32),
            sweep: Sweep::LeftToRight,
        }
    }
}

impl Clone for Args {
    fn clone(&self) -> (copy: Args)
        ensures
            copy@ == self@,
    {
        Args { device: self.device.clone(), capture: self.capture, sweep: self.sweep }
    }
}

impl Default for Args {
    fn default() -> (args: Args)
        ensures
            args@ == Settings::installed(),
    {
        Args {
            device: "/dev/video0".to_owned(),
            capture: (1920, 1080),
            sweep: Sweep::LeftToRight,
        }
    }
}

/// What `--help` prints: each flag, what it is for, and what it is without it.
pub open spec fn usage_text() -> Seq<char> {
    let d = Settings::installed();
    "usage: slitscan [--device PATH] [--capture WxH] [--sweep DIRECTION]\n"@
        + "  --device   v4l2 node the camera is on (default "@ + d.device + ")\n"@
        + "  --capture  mode to ask the camera for (default "@ + decimal_text(
        d.capture.0 as nat,
    ) + "x"@ + decimal_text(d.capture.1 as nat) + ")\n"@
        + "  --sweep    which way the writing line travels (default "@ + d.sweep.spelling()
        + ")\n"@ + "             one of: "@ + Sweep::all_spellings() + "\n"@
}

/// The text `--help` prints.
pub fn usage() -> (text: String)
    ensures
        text@ == usage_text(),
{
    let d: Args = Args::default();
    let mut text: String =
        "usage: slitscan [--device PATH] [--capture WxH] [--sweep DIRECTION]\n".to_owned();
    text.append("  --device   v4l2 node the camera is on (default ");
    text.append(d.device.as_str());
    text.append(")\n");
    text.append("  --capture  mode to ask the camera for (default ");
    text.append(decimal(d.capture.0).as_str());
    text.append("x");
    text.append(decimal(d.capture.1).as_str());
    text.append(")\n");
    text.append("  --sweep    which way the writing line travels (default ");
    text.append(d.sweep.name());
    text.append(")\n");
    text.append("             one of: ");
    text.append(Sweep::spellings().as_str());
    text.append("\n");
    text
}

/// The flags that take a value.
pub open spec fn is_setting(flag: Seq<char>) -> bool {
    flag == "--device"@ || flag == "--capture"@ || flag == "--sweep"@
}

/// The flags that ask for help.
pub open spec fn is_help(flag: Seq<char>) -> bool {
    flag == "--help"@ || flag == "-h"@
}

/// What `value` says a size is, or why it does not.
pub open spec fn sized(value: Seq<char>) -> Result<(u32, u32), Seq<char>> {
    match dimensions(value) {
        None => Err(value + " is not a size like 1920x1080"@),
        Some(size) => if size.0 == 0 || size.1 == 0 {
            Err(value + " has a zero side"@)
        } else {
            Ok(size)
        },
    }
}

/// `args` with the one setting `flag` names set to `value`, or why not.
pub open spec fn with_setting(args: Settings, flag: Seq<char>, value: Seq<char>) -> Result<
    Settings,
    Seq<char>,
> {
    if flag == "--device"@ {
        Ok(Settings { device: value, ..args })
    } else if flag == "--capture"@ {
        match sized(value) {
            Ok(size) => Ok(Settings { capture: size, ..args }),
            Err(why) => Err(why),
        }
    } else {
        match Sweep::spelled(value) {
            Some(sweep) => Ok(Settings { sweep, ..args }),
            None => Err(
                "unknown sweep "@ + value + "; one of "@ + Sweep::all_spellings(),
            ),
        }
    }
}

/// What the words of `argv` make of `args`: the settings to run with, `None`
/// for help, or why they cannot be run.
pub open spec fn command(args: Settings, argv: Seq<Seq<char>>) -> Result<
    Option<Settings>,
    Seq<char>,
>
    decreases argv.len(),
{
    if argv.len() == 0 {
        Ok(Some(args))
    } else if is_help(argv[0]) {
        Ok(None)
    } else if !is_setting(argv[0]) {
        // The value is only demanded once the flag is known, so a stray word
        // is reported as the unknown flag it is rather than as the missing
        // value of something nobody wrote.
        Err("unknown flag "@ + argv[0])
    } else if argv.len() == 1 {
        Err(argv[0] + " wants a value after it"@)
    } else {
        match with_setting(args, argv[0], argv[1]) {
            Ok(set) => command(set, argv.skip(2)),
            Err(why) => Err(why),
        }
    }
}

/// The outcome of [`parse`] over what its values hold.
pub open spec fn outcome(parsed: Result<Option<Args>, String>) -> Result<
    Option<Settings>,
    Seq<char>,
> {
    match parsed {
        Ok(Some(args)) => Ok(Some(args@)),
        Ok(None) => Ok(None),
        Err(why) => Err(why@),
    }
}

/// Reads the command line, the program's own name not included. `Ok(None)` is
/// `--help`: nothing to run, and not an error either.
pub fn parse(argv: Vec<String>) -> (parsed: Result<Option<Args>, String>)
    ensures
        outcome(parsed) == command(Settings::installed(), texts(argv@)),
{
    let ghost words = texts(argv@);
    let mut args: Args = Args::default();
    let mut i: usize = 0;
    assert(words.skip(0) =~= words);
    while i < argv.len()
        invariant
            i <= argv@.len(),
            words == texts(argv@),
            command(Settings::installed(), words) == command(args@, words.skip(i as int)),
        decreases argv@.len() - i,
    {
        let flag: &str = argv[i].as_str();
        if same(flag, "--help") || same(flag, "-h") {
            return Ok(None);
        }
        if !same(flag, "--device") && !same(flag, "--capture") && !same(flag, "--sweep") {
            let mut why: String = "unknown flag ".to_owned();
            why.append(flag);
            return Err(why);
        }
        if i + 1 == argv.len() {
            let mut why: String = flag.to_owned();
            why.append(" wants a value after it");
            return Err(why);
        }
        let value: &str = argv[i + 1].as_str();
        assert(words.skip(i as int).skip(2) =~= words.skip(i + 2));
        if same(flag, "--device") {
            args.device = value.to_owned();
        } else if same(flag, "--capture") {
            match size(value) {
                Ok(capture) => args.capture = capture,
                Err(why) => return Err(why),
            }
        } else {
            match Sweep::parse(value) {
                Some(sweep) => args.sweep = sweep,
                None => {
                    let mut why: String = "unknown sweep ".to_owned();
                    why.append(value);
                    why.append("; one of ");
                    why.append(Sweep::spellings().as_str());
                    return Err(why);
                },
            }
        }
        i = i + 2;
    }
    Ok(Some(args))
}

/// Reads a size like `1920x1080`.
pub fn size(value: &str) -> (size: Result<(u32, u32), String>)
    ensures
        match size {
            Ok(size) => sized(value@) == Ok::<(u32, u32), Seq<char>>(size),
            Err(why) => sized(value@) == Err::<(u32, u32), Seq<char>>(why@),
        },
{
    let chars: Vec<char> = characters(value);
    match parse_dimensions(chars.as_slice()) {
        None => {
            let mut why: String = value.to_owned();
            why.append(" is not a size like 1920x1080");
            Err(why)
        },
        // Zero is the one value that gets past the parse and then produces a
        // division by zero in the aspect fit and a texture the GPU refuses.
        Some(size) => if size.0 == 0 || size.1 == 0 {
            let mut why: String = value.to_owned();
            why.append(" has a zero side");
            Err(why)
        } else {
            Ok(size)
        },
    }
}

/// The three flags are told apart from each other and from help.
proof fn lemma_flags_differ()
    ensures
        is_setting("--device"@),
        is_setting("--capture"@),
        is_setting("--sweep"@),
        "--device"@ != "--capture"@,
        "--device"@ != "--sweep"@,
        "--capture"@ != "--sweep"@,
        forall|flag: Seq<char>| is_setting(flag) ==> !is_help(flag),
{
    reveal_strlit("--device");
    reveal_strlit("--capture");
    reveal_strlit("--sweep");
    reveal_strlit("--help");
    reveal_strlit("-h");
    assert("--device"@[2] == 'd' && "--capture"@[2] == 'c' && "--sweep"@[2] == 's');
    assert("--help"@[2] == 'h' && "-h"@.len() == 2);
}

/// No flags is the piece as it is installed.
pub proof fn law_no_flags_changes_nothing(args: Settings)
    ensures
        command(args, Seq::empty()) == Ok::<_, Seq<char>>(Some(args)),
{
}

/// Each flag sets its own field and nothing else.
pub proof fn law_each_flag_sets_its_own_field(
    args: Settings,
    device: Seq<char>,
    capture: (u32, u32),
    sweep: Sweep,
)
    requires
        capture.0 > 0,
        capture.1 > 0,
    ensures
        command(args, seq!["--device"@, device]) == Ok::<_, Seq<char>>(
            Some(Settings { device, ..args }),
        ),
        command(args, seq!["--capture"@, size_text(capture)]) == Ok::<_, Seq<char>>(
            Some(Settings { capture, ..args }),
        ),
        command(args, seq!["--sweep"@, sweep.spelling()]) == Ok::<_, Seq<char>>(
            Some(Settings { sweep, ..args }),
        ),
{
    reveal_with_fuel(command, 2);
    lemma_flags_differ();
    law_size_round_trip(capture);
    sweep.law_spelling_parses();
}

/// The words are read in order: what a run of words settles is what the words
/// behind it start from.
pub proof fn law_words_are_read_in_order(
    args: Settings,
    words: Seq<Seq<char>>,
    rest: Seq<Seq<char>>,
)
    ensures
        command(args, words) matches Ok(Some(settled)) ==> command(args, words + rest) == command(
            settled,
            rest,
        ),
        command(args, words) matches Ok(None) ==> command(args, words + rest) == Ok::<
            Option<Settings>,
            Seq<char>,
        >(None),
    decreases words.len(),
{
    if words.len() == 0 {
    } else {
        if words.len() >= 2 {
            assert((words + rest).skip(2) =~= words.skip(2) + rest);
            if let Ok(set) = with_setting(args, words[0], words[1]) {
                law_words_are_read_in_order(set, words.skip(2), rest);
            }
        }
    }
}

/// Help is not a run and not an error, whatever was settled before it and
/// whatever stands behind it.
pub proof fn law_help_is_not_a_run_and_not_an_error(
    args: Settings,
    words: Seq<Seq<char>>,
    flag: Seq<char>,
    rest: Seq<Seq<char>>,
)
    requires
        command(args, words) matches Ok(Some(_)),
        is_help(flag),
    ensures
        command(args, words + (seq![flag] + rest)) == Ok::<Option<Settings>, Seq<char>>(None),
{
    law_words_are_read_in_order(args, words, seq![flag] + rest);
}

/// A flag given twice is what it was given last.
pub proof fn law_the_last_value_wins(
    args: Settings,
    flag: Seq<char>,
    first: Seq<char>,
    second: Seq<char>,
)
    requires
        is_setting(flag),
        command(args, seq![flag, first]) matches Ok(Some(_)),
    ensures
        command(args, seq![flag, first, flag, second]) == command(args, seq![flag, second]),
{
    reveal_with_fuel(command, 2);
    lemma_flags_differ();
    let once = seq![flag, first];
    let again = seq![flag, second];
    assert(seq![flag, first, flag, second] =~= once + again);
    law_words_are_read_in_order(args, once, again);
}

/// Settings that may be run never ask for a capture with a zero side.
pub proof fn law_capture_has_no_zero_side(args: Settings, argv: Seq<Seq<char>>)
    requires
        args.capture.0 > 0,
        args.capture.1 > 0,
    ensures
        command(args, argv) matches Ok(Some(settled)) ==> settled.capture.0 > 0
            && settled.capture.1 > 0,
    decreases argv.len(),
{
    if argv.len() >= 2 {
        if let Ok(set) = with_setting(args, argv[0], argv[1]) {
            law_capture_has_no_zero_side(set, argv.skip(2));
        }
    }
}

/// What cannot be run says why: no refusal is silent.
pub proof fn law_a_refusal_says_why(args: Settings, argv: Seq<Seq<char>>)
    ensures
        command(args, argv) matches Err(why) ==> why.len() > 0,
    decreases argv.len(),
{
    reveal_strlit("unknown flag ");
    reveal_strlit(" wants a value after it");
    reveal_strlit(" is not a size like 1920x1080");
    reveal_strlit(" has a zero side");
    reveal_strlit("unknown sweep ");
    if argv.len() >= 2 {
        if let Ok(set) = with_setting(args, argv[0], argv[1]) {
            law_a_refusal_says_why(set, argv.skip(2));
        }
    }
}

/// The piece as it is installed: the first v4l2 node, asked for 1920x1080, and
/// a line that travels from left to right.
pub proof fn law_the_piece_as_it_is_installed()
    ensures
        Settings::installed().device == "/dev/video0"@,
        Settings::installed().capture == (1920u32, 1080u32),
        Settings::installed().sweep == Sweep::LeftToRight,
{
}

/// What is settled is what there is to run with: each setting is held as it
/// was given, help is nothing to run, and a refusal is its own words.
pub proof fn law_what_is_settled_is_what_is_run(args: Args, why: String)
    ensures
        args@.device == args.device@,
        args@.capture == args.capture,
        args@.sweep == args.sweep,
        outcome(Ok(Some(args))) == Ok::<_, Seq<char>>(Some(args@)),
        outcome(Ok(None)) == Ok::<Option<Settings>, Seq<char>>(None),
        outcome(Err(why)) == Err::<Option<Settings>, _>(why@),
{
}

/// A size is refused where it is not two numbers with an `x` between them, and
/// where one of them is zero; any other is the two numbers.
pub proof fn law_a_size_has_two_sides(width: u32, height: u32, value: Seq<char>)
    ensures
        dimensions(value) is None ==> sized(value) == Err::<(u32, u32), _>(
            value + " is not a size like 1920x1080"@,
        ),
        dimensions(value) == Some((width, height)) ==> sized(value) == if width > 0 && height > 0 {
            Ok::<(u32, u32), Seq<char>>((width, height))
        } else {
            Err(value + " has a zero side"@)
        },
{
}

/// A device is taken as it is given, whatever it says, and the words behind it
/// are read with it settled.
pub proof fn law_a_device_is_taken_as_given(
    args: Settings,
    device: Seq<char>,
    rest: Seq<Seq<char>>,
)
    ensures
        command(args, seq!["--device"@, device] + rest) == command(
            Settings { device, capture: args.capture, sweep: args.sweep },
            rest,
        ),
{
    lemma_flags_differ();
    assert((seq!["--device"@, device] + rest).skip(2) =~= rest);
}

/// A capture mode is taken where it is a size without a zero side, and the
/// words behind it are read with it settled; any other is refused for what is
/// wrong with it, whatever stands behind it.
pub proof fn law_a_capture_is_a_size(args: Settings, value: Seq<char>, rest: Seq<Seq<char>>)
    ensures
        command(args, seq!["--capture"@, value] + rest) == match dimensions(value) {
            Some((width, height)) => if width > 0 && height > 0 {
                command(
                    Settings { device: args.device, capture: (width, height), sweep: args.sweep },
                    rest,
                )
            } else {
                Err(value + " has a zero side"@)
            },
            None => Err(value + " is not a size like 1920x1080"@),
        },
{
    lemma_flags_differ();
    assert((seq!["--capture"@, value] + rest).skip(2) =~= rest);
}

/// A sweep is taken where it is one of the four, and the words behind it are
/// read with it settled; any other is refused, and the four are named.
pub proof fn law_a_sweep_is_one_of_four(args: Settings, value: Seq<char>, rest: Seq<Seq<char>>)
    ensures
        command(args, seq!["--sweep"@, value] + rest) == {
            let with = |sweep: Sweep|
                command(Settings { device: args.device, capture: args.capture, sweep }, rest);
            if value == "left-to-right"@ {
                with(Sweep::LeftToRight)
            } else if value == "right-to-left"@ {
                with(Sweep::RightToLeft)
            } else if value == "top-to-bottom"@ {
                with(Sweep::TopToBottom)
            } else if value == "bottom-to-top"@ {
                with(Sweep::BottomToTop)
            } else {
                Err(
                    "unknown sweep "@ + value + "; one of "@ + ("left-to-right"@ + " | "@
                        + "right-to-left"@ + " | "@ + "top-to-bottom"@ + " | "@
                        + "bottom-to-top"@),
                )
            }
        },
{
    lemma_flags_differ();
    assert((seq!["--sweep"@, value] + rest).skip(2) =~= rest);
    Sweep::law_the_four_spellings(value);
    Sweep::law_the_spellings_are_listed();
}

/// Help is asked for in two ways, and once it is nothing behind it matters.
pub proof fn law_help_is_asked_for_in_two_ways(args: Settings, rest: Seq<Seq<char>>)
    ensures
        command(args, seq!["--help"@] + rest) == Ok::<Option<Settings>, Seq<char>>(None),
        command(args, seq!["-h"@] + rest) == Ok::<Option<Settings>, Seq<char>>(None),
{
}

/// A flag wants its value: each of the three at the end of the words is
/// refused, by name. A word that is none of the three, and does not ask for
/// help, is an unknown flag, whatever stands behind it.
pub proof fn law_what_is_not_a_setting_is_refused(
    args: Settings,
    word: Seq<char>,
    rest: Seq<Seq<char>>,
)
    ensures
        word == "--device"@ || word == "--capture"@ || word == "--sweep"@ ==> command(
            args,
            seq![word],
        ) == Err::<Option<Settings>, _>(word + " wants a value after it"@),
        word != "--device"@ && word != "--capture"@ && word != "--sweep"@ && word != "--help"@
            && word != "-h"@ ==> command(args, seq![word] + rest) == Err::<Option<Settings>, _>(
            "unknown flag "@ + word,
        ),
{
    lemma_flags_differ();
}

} // verus!
