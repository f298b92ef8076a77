//! Where the writing line is, and how the camera's shape is fitted to the
//! field's. Both are plain arithmetic with no GPU in them.

use vstd::arithmetic::div_mod::{
    lemma_fundamental_div_mod, lemma_fundamental_div_mod_converse, lemma_mod_multiples_vanish,
    lemma_small_mod,
};
use vstd::prelude::*;

use crate::ratio::{law_a_fraction_is_its_quotient, lemma_zero_and_one_are_lowest, Ratio};
use crate::text::{joined, same};

verus! {

/// Which way the writing line travels across the field. The line is
/// perpendicular to its travel, so `LeftToRight` writes a one-pixel *column*
/// and `TopToBottom` a one-pixel *row*.
#[derive(Clone, Copy, Debug, PartialEq, Eq, Structural)]
pub enum Sweep {
    LeftToRight,
    RightToLeft,
    TopToBottom,
    BottomToTop,
}

impl Sweep {
    /// The spelling the command line accepts, and the one [`Sweep::name`]
    /// prints. One table, so the two cannot disagree.
    pub const NAMES: [(&'static str, Sweep); 4] = [
        ("left-to-right", Sweep::LeftToRight),
        ("right-to-left", Sweep::RightToLeft),
        ("top-to-bottom", Sweep::TopToBottom),
        ("bottom-to-top", Sweep::BottomToTop),
    ];

    /// Every sweep, in the order the table lists them.
    pub open spec fn all() -> Seq<Sweep> {
        seq![Sweep::LeftToRight, Sweep::RightToLeft, Sweep::TopToBottom, Sweep::BottomToTop]
    }

    /// How this sweep is spelled.
    pub open spec fn spelling(self) -> Seq<char> {
        match self {
            Sweep::LeftToRight => "left-to-right"@,
            Sweep::RightToLeft => "right-to-left"@,
            Sweep::TopToBottom => "top-to-bottom"@,
            Sweep::BottomToTop => "bottom-to-top"@,
        }
    }

    /// The sweep that `s` spells, if it spells one.
    pub open spec fn spelled(s: Seq<char>) -> Option<Sweep> {
        if s == Sweep::LeftToRight.spelling() {
            Some(Sweep::LeftToRight)
        } else if s == Sweep::RightToLeft.spelling() {
            Some(Sweep::RightToLeft)
        } else if s == Sweep::TopToBottom.spelling() {
            Some(Sweep::TopToBottom)
        } else if s == Sweep::BottomToTop.spelling() {
            Some(Sweep::BottomToTop)
        } else {
            None
        }
    }

    /// Every spelling, with a bar between them.
    pub open spec fn all_spellings() -> Seq<char> {
        joined(Sweep::all().map_values(|sweep: Sweep| sweep.spelling()), " | "@)
    }

    /// The sweep spelled `s`, if there is one.
    pub fn parse(s: &str) -> (sweep: Option<Sweep>)
        ensures
            sweep == Sweep::spelled(s@),
    {
        let mut i: usize = 0;
        while i < 4
            invariant
                i <= 4,
                forall|j: int| 0 <= j < i ==> s@ != (#[trigger] Sweep::all()[j]).spelling(),
            decreases 4 - i,
        {
            let row: (&'static str, Sweep) = Sweep::NAMES[i];
            if same(row.0, s) {
                assert(i > 0 ==> s@ != Sweep::all()[0].spelling());
                return Some(row.1);
            }
            i = i + 1;
        }
        assert(s@ != Sweep::all()[3].spelling());
        None
    }

    /// How this sweep is spelled.
    pub fn name(self) -> (name: &'static str)
        ensures
            name@ == self.spelling(),
    {
        let mut i: usize = 0;
        while i < 3 && Sweep::NAMES[i].1 != self
            invariant
                i <= 3,
                forall|j: int| 0 <= j < i ==> self != #[trigger] Sweep::all()[j],
            decreases 3 - i,
        {
            i = i + 1;
        }
        assert(i > 2 ==> self != Sweep::all()[2]);
        Sweep::NAMES[i].0
    }

    /// Every spelling, for a message that lists the choices.
    pub fn spellings() -> (list: String)
        ensures
            list@ == Sweep::all_spellings(),
    {
        let ghost names = Sweep::all().map_values(|sweep: Sweep| sweep.spelling());
        let mut list: String = String::new();
        let mut i: usize = 0;
        while i < 4
            invariant
                i <= 4,
                names == Sweep::all().map_values(|sweep: Sweep| sweep.spelling()),
                list@ == joined(names.take(i as int), " | "@),
            decreases 4 - i,
        {
            if i > 0 {
                list.append(" | ");
            }
            list.append(Sweep::NAMES[i].0);
            i = i + 1;
            assert(names.take(i as int).drop_last() =~= names.take(i - 1));
        }
        assert(names.take(4) =~= names);
        list
    }

    /// Whether the line moves sideways, and so is a column.
    pub open spec fn sideways(self) -> bool {
        self is LeftToRight || self is RightToLeft
    }

    /// Whether the line starts from the left or from the top.
    pub open spec fn forward(self) -> bool {
        self is LeftToRight || self is TopToBottom
    }

    /// The side of the field that the line travels along.
    pub open spec fn spec_span(self, size: (u32, u32)) -> u32 {
        if self.sideways() {
            size.0
        } else {
            size.1
        }
    }

    /// How many distinct positions the line has on a field of `size`, which
    /// is also how many frames one full pass takes.
    #[verifier::when_used_as_spec(spec_span)]
    pub fn span(self, size: (u32, u32)) -> (span: u32)
        ensures
            span == self.spec_span(size),
    {
        match self {
            Sweep::LeftToRight | Sweep::RightToLeft => size.0,
            Sweep::TopToBottom | Sweep::BottomToTop => size.1,
        }
    }

    /// How far along its travel the line is on frame `step`, counted from the
    /// left or the top of the field.
    pub open spec fn position(self, size: (u32, u32), step: int) -> int {
        let along = step % (self.span(size) as int);
        if self.forward() {
            along
        } else {
            self.span(size) - 1 - along
        }
    }

    /// The rectangle `(x, y, width, height)` that is the line on frame `step`.
    pub open spec fn spec_line(self, size: (u32, u32), step: int) -> (int, int, int, int) {
        if self.sideways() {
            (self.position(size, step), 0, 1, size.1 as int)
        } else {
            (0, self.position(size, step), size.0 as int, 1)
        }
    }

    /// The line to write on frame `step`, as a scissor rectangle in the
    /// field's own pixels: `(x, y, width, height)`, origin top left.
    ///
    /// `step` counts frames since startup and never resets: the wrap is the
    /// remainder, so nothing has to notice the edge and there is no state to
    /// get out of step with the field.
    pub fn line(self, size: (u32, u32), step: u64) -> (line: (u32, u32, u32, u32))
        requires
            self.span(size) > 0,
        ensures
            (line.0 as int, line.1 as int, line.2 as int, line.3 as int) == self.spec_line(
                size,
                step as int,
            ),
            match self {
                Sweep::LeftToRight => line == ((step % size.0 as u64) as u32, 0u32, 1u32, size.1),
                Sweep::RightToLeft => line == (
                    (size.0 - 1 - step % size.0 as u64) as u32,
                    0u32,
                    1u32,
                    size.1,
                ),
                Sweep::TopToBottom => line == (0u32, (step % size.1 as u64) as u32, size.0, 1u32),
                Sweep::BottomToTop => line == (
                    0u32,
                    (size.1 - 1 - step % size.1 as u64) as u32,
                    size.0,
                    1u32,
                ),
            },
    {
        let span: u32 = self.span(size);
        let along: u32 = (step % span as u64) as u32;
        // The two "backwards" sweeps are the same walk read from the far end,
        // rather than a second set of cases to keep in agreement with these.
        let from_end: u32 = span - 1 - along;
        match self {
            Sweep::LeftToRight => (along, 0, 1, size.1),
            Sweep::RightToLeft => (from_end, 0, 1, size.1),
            Sweep::TopToBottom => (0, along, size.0, 1),
            Sweep::BottomToTop => (0, from_end, size.0, 1),
        }
    }
}

/// Whether the rectangle `(x, y, width, height)` holds the pixel at `(px, py)`.
pub open spec fn covers(rect: (int, int, int, int), px: int, py: int) -> bool {
    &&& rect.0 <= px < rect.0 + rect.2
    &&& rect.1 <= py < rect.1 + rect.3
}

/// Whether the pixel at `(px, py)` is one of a field of `size`.
pub open spec fn inside(size: (u32, u32), px: int, py: int) -> bool {
    covers((0, 0, size.0 as int, size.1 as int), px, py)
}

impl Sweep {
    /// How many frames into a pass the line is on the pixel at `(px, py)`.
    pub open spec fn due(self, size: (u32, u32), px: int, py: int) -> int {
        let at = if self.sideways() {
            px
        } else {
            py
        };
        if self.forward() {
            at
        } else {
            self.span(size) - 1 - at
        }
    }

    /// The last of the first `steps` frames whose line was on the pixel at
    /// `(px, py)`, if one was: the frame whose camera image the pixel holds.
    pub open spec fn last_written(self, size: (u32, u32), steps: nat, px: int, py: int) -> Option<
        nat,
    >
        decreases steps,
    {
        if steps == 0 {
            None
        } else if covers(self.spec_line(size, steps - 1), px, py) {
            Some((steps - 1) as nat)
        } else {
            self.last_written(size, (steps - 1) as nat, px, py)
        }
    }

    /// A sweep's own spelling parses as that sweep.
    pub proof fn law_spelling_parses(self)
        ensures
            Sweep::spelled(self.spelling()) == Some(self),
    {
        reveal_strlit("left-to-right");
        reveal_strlit("right-to-left");
        reveal_strlit("top-to-bottom");
        reveal_strlit("bottom-to-top");
        assert("left-to-right"@[0] == 'l');
        assert("right-to-left"@[0] == 'r');
        assert("top-to-bottom"@[0] == 't');
        assert("bottom-to-top"@[0] == 'b');
    }

    /// Whatever parses as a sweep is that sweep's own spelling, letter for
    /// letter: nothing else is accepted.
    pub proof fn law_only_spellings_parse(s: Seq<char>)
        ensures
            Sweep::spelled(s) matches Some(sweep) ==> s == sweep.spelling(),
            Sweep::spelled(s) is None <==> forall|sweep: Sweep| s != #[trigger] sweep.spelling(),
    {
        if let Some(sweep) = Sweep::spelled(s) {
            assert(s == sweep.spelling());
        }
    }

    /// The four spellings are the ones the command line lists, and each is its
    /// own sweep's; anything else spells none.
    pub proof fn law_the_four_spellings(s: Seq<char>)
        ensures
            Sweep::LeftToRight.spelling() == "left-to-right"@,
            Sweep::RightToLeft.spelling() == "right-to-left"@,
            Sweep::TopToBottom.spelling() == "top-to-bottom"@,
            Sweep::BottomToTop.spelling() == "bottom-to-top"@,
            Sweep::spelled(s) == Some(Sweep::LeftToRight) <==> s == "left-to-right"@,
            Sweep::spelled(s) == Some(Sweep::RightToLeft) <==> s == "right-to-left"@,
            Sweep::spelled(s) == Some(Sweep::TopToBottom) <==> s == "top-to-bottom"@,
            Sweep::spelled(s) == Some(Sweep::BottomToTop) <==> s == "bottom-to-top"@,
    {
        Sweep::LeftToRight.law_spelling_parses();
        Sweep::RightToLeft.law_spelling_parses();
        Sweep::TopToBottom.law_spelling_parses();
        Sweep::BottomToTop.law_spelling_parses();
    }

    /// A list of the spellings is the four of them, with a bar between each
    /// two.
    pub proof fn law_the_spellings_are_listed()
        ensures
            Sweep::all_spellings() == "left-to-right"@ + " | "@ + "right-to-left"@ + " | "@
                + "top-to-bottom"@ + " | "@ + "bottom-to-top"@,
    {
        let names = Sweep::all().map_values(|sweep: Sweep| sweep.spelling());
        assert(names =~= seq![
            "left-to-right"@,
            "right-to-left"@,
            "top-to-bottom"@,
            "bottom-to-top"@,
        ]);
        assert(names.drop_last() =~= seq!["left-to-right"@, "right-to-left"@, "top-to-bottom"@]);
        assert(names.drop_last().drop_last() =~= seq!["left-to-right"@, "right-to-left"@]);
        assert(names.drop_last().drop_last().drop_last() =~= seq!["left-to-right"@]);
        reveal_with_fuel(joined, 4);
    }

    /// A sideways pass takes as many frames as the field has columns, and one
    /// up or down as many as it has rows.
    pub proof fn law_a_pass_is_as_long_as_the_side_it_travels(width: u32, height: u32)
        ensures
            Sweep::LeftToRight.span((width, height)) == width,
            Sweep::RightToLeft.span((width, height)) == width,
            Sweep::TopToBottom.span((width, height)) == height,
            Sweep::BottomToTop.span((width, height)) == height,
    {
    }

    /// Where the line is, for every field and every frame of the first pass:
    /// left to right is the column that many from the left edge and right to
    /// left the column that many from the right one, each the field's whole
    /// height; top to bottom is the row that many from the top and bottom to
    /// top the row that many from the bottom, each its whole width.
    pub proof fn law_where_the_line_is(width: u32, height: u32, step: int)
        requires
            0 <= step,
        ensures
            step < width ==> {
                &&& Sweep::LeftToRight.spec_line((width, height), step) == (
                    step,
                    0int,
                    1int,
                    height as int,
                )
                &&& Sweep::RightToLeft.spec_line((width, height), step) == (
                    width - 1 - step,
                    0int,
                    1int,
                    height as int,
                )
            },
            step < height ==> {
                &&& Sweep::TopToBottom.spec_line((width, height), step) == (
                    0int,
                    step,
                    width as int,
                    1int,
                )
                &&& Sweep::BottomToTop.spec_line((width, height), step) == (
                    0int,
                    height - 1 - step,
                    width as int,
                    1int,
                )
            },
    {
        if step < width {
            lemma_small_mod(step as nat, width as nat);
        }
        if step < height {
            lemma_small_mod(step as nat, height as nat);
        }
    }

    /// The wrap is the edge's whole behaviour: as many frames later as the
    /// field has columns a column is where it was, and as many later as it has
    /// rows a row is.
    pub proof fn law_the_line_comes_back_round(width: u32, height: u32, step: int)
        requires
            0 <= step,
        ensures
            width > 0 ==> {
                &&& Sweep::LeftToRight.spec_line((width, height), step + width)
                    == Sweep::LeftToRight.spec_line((width, height), step)
                &&& Sweep::RightToLeft.spec_line((width, height), step + width)
                    == Sweep::RightToLeft.spec_line((width, height), step)
            },
            height > 0 ==> {
                &&& Sweep::TopToBottom.spec_line((width, height), step + height)
                    == Sweep::TopToBottom.spec_line((width, height), step)
                &&& Sweep::BottomToTop.spec_line((width, height), step + height)
                    == Sweep::BottomToTop.spec_line((width, height), step)
            },
    {
        let size = (width, height);
        if width > 0 {
            Sweep::LeftToRight.law_line_wraps(size, step, 1);
            Sweep::RightToLeft.law_line_wraps(size, step, 1);
        }
        if height > 0 {
            Sweep::TopToBottom.law_line_wraps(size, step, 1);
            Sweep::BottomToTop.law_line_wraps(size, step, 1);
        }
    }

    /// Which frame a pixel holds after `steps` of them, for every field: none
    /// while the line has not come as far as the pixel, counted in columns
    /// from the edge a sideways sweep starts from or in rows from the one it
    /// starts from up or down; and from then on the latest that is a whole
    /// number of passes behind the one that first reached it.
    pub proof fn law_which_frame_each_pixel_holds(
        sweep: Sweep,
        width: u32,
        height: u32,
        steps: nat,
        px: int,
        py: int,
    )
        requires
            0 <= px < width,
            0 <= py < height,
        ensures
            ({
                let (first, pass) = match sweep {
                    Sweep::LeftToRight => (px, width as int),
                    Sweep::RightToLeft => (width - 1 - px, width as int),
                    Sweep::TopToBottom => (py, height as int),
                    Sweep::BottomToTop => (height - 1 - py, height as int),
                };
                match sweep.last_written((width, height), steps, px, py) {
                    None => steps <= first,
                    Some(step) => {
                        &&& first < steps
                        &&& step < steps <= step + pass
                        &&& step as int % pass == first
                    },
                }
            }),
    {
        let size = (width, height);
        if steps <= sweep.due(size, px, py) {
            sweep.law_unreached_pixels_are_untouched(size, steps, px, py);
        } else {
            sweep.law_what_a_pixel_holds(size, steps, px, py);
        }
    }

    /// The line is always inside the field, one pixel thick, and reaches from
    /// one edge of the field to the other across its travel.
    pub proof fn law_line_is_one_line_of_the_field(self, size: (u32, u32), step: int)
        requires
            self.span(size) > 0,
        ensures
            ({
                let (x, y, width, height) = self.spec_line(size, step);
                &&& 0 <= x && x + width <= size.0
                &&& 0 <= y && y + height <= size.1
                &&& self.sideways() ==> y == 0 && width == 1 && height == size.1
                &&& !self.sideways() ==> x == 0 && width == size.0 && height == 1
            }),
    {
    }

    /// The sweep repeats itself: a whole number of passes later the line is
    /// where it was.
    pub proof fn law_line_wraps(self, size: (u32, u32), step: int, passes: int)
        requires
            self.span(size) > 0,
        ensures
            self.spec_line(size, step + passes * self.span(size)) == self.spec_line(size, step),
    {
        lemma_passes_vanish(step, self.span(size) as int, passes);
    }

    /// From its first frame a forward sweep visits the lines in order from the
    /// left or the top, and a backward one in order from the right or the
    /// bottom.
    pub proof fn law_first_pass_is_in_order(self, size: (u32, u32), step: int)
        requires
            0 <= step < self.span(size),
        ensures
            self.forward() ==> self.position(size, step) == step,
            !self.forward() ==> self.position(size, step) == self.span(size) - 1 - step,
    {
        lemma_small_mod(step as nat, self.span(size) as nat);
    }

    /// Every frame moves the line on by one, and from the last line of the
    /// pass it goes back to the first.
    pub proof fn law_line_moves_one_step(self, size: (u32, u32), step: int)
        requires
            self.span(size) > 0,
        ensures
            ({
                let now = self.position(size, step);
                let next = self.position(size, step + 1);
                let last = self.span(size) - 1;
                if self.forward() {
                    next == if now == last { 0 } else { now + 1 }
                } else {
                    next == if now == 0 { last } else { now - 1 }
                }
            }),
    {
        let span = self.span(size) as int;
        let along = step % span;
        lemma_fundamental_div_mod(step, span);
        if along == span - 1 {
            assert(step + 1 == span * (step / span + 1) + 0) by (nonlinear_arith)
                requires
                    step == span * (step / span) + along,
                    along == span - 1,
            ;
            lemma_fundamental_div_mod_converse(step + 1, span, step / span + 1, 0);
        } else {
            assert(step / span * span == span * (step / span)) by (nonlinear_arith);
            lemma_fundamental_div_mod_converse(step + 1, span, step / span, along + 1);
        }
    }

    /// The two reversed sweeps are the forward ones backwards.
    pub proof fn law_reversed_sweeps_run_backwards(size: (u32, u32), step: int)
        ensures
            size.0 > 0 ==> Sweep::RightToLeft.spec_line(size, step)
                == Sweep::LeftToRight.spec_line(size, size.0 - 1 - step % (size.0 as int)),
            size.1 > 0 ==> Sweep::BottomToTop.spec_line(size, step)
                == Sweep::TopToBottom.spec_line(size, size.1 - 1 - step % (size.1 as int)),
    {
        if size.0 > 0 {
            lemma_small_mod((size.0 - 1 - step % (size.0 as int)) as nat, size.0 as nat);
        }
        if size.1 > 0 {
            lemma_small_mod((size.1 - 1 - step % (size.1 as int)) as nat, size.1 as nat);
        }
    }

    /// The line is on a pixel on exactly the frames that are as far into a
    /// pass as the pixel is along the sweep.
    pub proof fn law_when_a_pixel_is_written(self, size: (u32, u32), step: int, px: int, py: int)
        requires
            inside(size, px, py),
        ensures
            0 <= self.due(size, px, py) < self.span(size),
            covers(self.spec_line(size, step), px, py) <==> step % (self.span(size) as int)
                == self.due(size, px, py),
    {
    }

    /// A pass touches every line of the field before it repeats one: among any
    /// `span` consecutive frames, each pixel is written on one and on no other.
    pub proof fn law_every_pass_touches_every_line_once(
        self,
        size: (u32, u32),
        start: int,
        px: int,
        py: int,
    )
        requires
            inside(size, px, py),
        ensures
            exists|step: int|
                start <= step < start + self.span(size) && #[trigger] covers(
                    self.spec_line(size, step),
                    px,
                    py,
                ),
            forall|a: int, b: int|
                start <= a < start + self.span(size) && start <= b < start + self.span(size)
                    && #[trigger] covers(self.spec_line(size, a), px, py) && #[trigger] covers(
                    self.spec_line(size, b),
                    px,
                    py,
                ) ==> a == b,
    {
        let span = self.span(size) as int;
        let due = self.due(size, px, py);
        // The first frame from `start` on that is `due` frames into a pass.
        let q = start / span;
        let r = start % span;
        lemma_fundamental_div_mod(start, span);
        let first = if r <= due {
            q * span + due
        } else {
            (q + 1) * span + due
        };
        assert((q + 1) * span == q * span + span && span * q == q * span) by (nonlinear_arith);
        if r <= due {
            lemma_fundamental_div_mod_converse(first, span, q, due);
        } else {
            lemma_fundamental_div_mod_converse(first, span, q + 1, due);
        }
        self.law_when_a_pixel_is_written(size, first, px, py);
        assert forall|a: int, b: int|
            start <= a < start + self.span(size) && start <= b < start + self.span(size)
                && #[trigger] covers(self.spec_line(size, a), px, py) && #[trigger] covers(
                self.spec_line(size, b),
                px,
                py,
            ) implies a == b by {
            self.law_when_a_pixel_is_written(size, a, px, py);
            self.law_when_a_pixel_is_written(size, b, px, py);
            lemma_same_remainder(a, b, span);
        }
    }

    /// A pixel that the line has not reached yet has never been written.
    pub proof fn law_unreached_pixels_are_untouched(
        self,
        size: (u32, u32),
        steps: nat,
        px: int,
        py: int,
    )
        requires
            inside(size, px, py),
            steps <= self.due(size, px, py),
        ensures
            self.last_written(size, steps, px, py) is None,
        decreases steps,
    {
        if steps > 0 {
            self.law_when_a_pixel_is_written(size, steps - 1, px, py);
            lemma_small_mod((steps - 1) as nat, self.span(size) as nat);
            self.law_unreached_pixels_are_untouched(size, (steps - 1) as nat, px, py);
        }
    }

    /// A pixel holds the frame that wrote it until the line comes back round,
    /// a whole pass later, and not a frame longer.
    pub proof fn law_a_pixel_holds_for_one_pass(
        self,
        size: (u32, u32),
        step: nat,
        steps: nat,
        px: int,
        py: int,
    )
        requires
            inside(size, px, py),
            covers(self.spec_line(size, step as int), px, py),
            step < steps,
        ensures
            steps <= step + self.span(size) ==> self.last_written(size, steps, px, py) == Some(
                step,
            ),
            steps > step + self.span(size) ==> self.last_written(size, steps, px, py) != Some(step),
        decreases steps,
    {
        let span = self.span(size) as int;
        let latest = (steps - 1) as nat;
        self.law_when_a_pixel_is_written(size, step as int, px, py);
        self.law_when_a_pixel_is_written(size, latest as int, px, py);
        if latest == step {
        } else if steps <= step + span {
            if covers(self.spec_line(size, latest as int), px, py) {
                lemma_same_remainder(step as int, latest as int, span);
            }
            self.law_a_pixel_holds_for_one_pass(size, step, latest, px, py);
        } else if latest == step + span {
            self.law_line_wraps(size, step as int, 1);
        } else {
            self.law_a_pixel_holds_for_one_pass(size, step, latest, px, py);
        }
    }

    /// After `steps` frames, a pixel the line has reached holds the latest
    /// frame that is as far into its pass as the pixel is along the sweep.
    pub proof fn law_what_a_pixel_holds(self, size: (u32, u32), steps: nat, px: int, py: int)
        requires
            inside(size, px, py),
            self.due(size, px, py) < steps,
        ensures
            self.last_written(size, steps, px, py) matches Some(step) && {
                &&& step < steps <= step + self.span(size)
                &&& step as int % (self.span(size) as int) == self.due(size, px, py)
            },
        decreases steps,
    {
        let span = self.span(size) as int;
        let due = self.due(size, px, py);
        let latest = (steps - 1) as nat;
        self.law_when_a_pixel_is_written(size, latest as int, px, py);
        if !covers(self.spec_line(size, latest as int), px, py) {
            if latest == due {
                lemma_small_mod(latest, span as nat);
            }
            self.law_what_a_pixel_holds(size, latest, px, py);
            let step = self.last_written(size, latest, px, py).unwrap();
            if latest == step + span {
                lemma_passes_vanish(step as int, span, 1);
            }
        }
    }
}

/// Whole passes leave the remainder as it was.
proof fn lemma_passes_vanish(step: int, span: int, passes: int)
    requires
        span > 0,
    ensures
        (step + passes * span) % span == step % span,
{
    lemma_mod_multiples_vanish(passes, step, span);
    assert(span * passes + step == step + passes * span) by (nonlinear_arith);
}

/// Two numbers less than `span` apart with the same remainder are one number.
proof fn lemma_same_remainder(a: int, b: int, span: int)
    requires
        span > 0,
        a % span == b % span,
        -span < a - b < span,
    ensures
        a == b,
{
    lemma_fundamental_div_mod(a, span);
    lemma_fundamental_div_mod(b, span);
    assert(a / span == b / span) by (nonlinear_arith)
        requires
            a == span * (a / span) + a % span,
            b == span * (b / span) + b % span,
            a % span == b % span,
            -span < a - b < span,
            span > 0,
    ;
}

/// Maps a point of the field to a point of the camera image: `uv * scale +
/// offset`, both in the 0..1 texture coordinates the shader works in, with
/// the horizontal axis first.
///
/// Zoom to fill, so the overhanging axis of the camera image is thrown away
/// rather than shown as bars: the same crop on both sides, so what survives
/// is what the camera was pointed at.
#[derive(Clone, Copy, Debug, PartialEq, Eq)]
pub struct Cover {
    pub scale: [Ratio; 2],
    pub offset: [Ratio; 2],
}

impl Cover {
    /// The identity: every camera pixel, none cropped. What the present pass
    /// wants, since the field is already exactly the shape of the display.
    pub fn whole() -> (cover: Cover)
        ensures
            cover.keeps_all(0),
            cover.keeps_all(1),
    {
        let one: Ratio = Ratio { num: 1, den: 1 };
        let zero: Ratio = Ratio { num: 0, den: 1 };
        Cover { scale: [one, one], offset: [zero, zero] }
    }

    /// Whether `axis` keeps all of the camera image.
    pub open spec fn keeps_all(self, axis: int) -> bool {
        &&& self.scale[axis].num == 1
        &&& self.scale[axis].den == 1
        &&& self.offset[axis].num == 0
        &&& self.offset[axis].den == 1
    }

    /// Whether `axis` keeps the middle `kept / all` of the camera image.
    pub open spec fn keeps_middle(self, axis: int, kept: int, all: int) -> bool {
        &&& self.scale[axis].is(kept, all)
        &&& self.scale[axis].lowest()
        &&& self.offset[axis].is(all - kept, 2 * all)
        &&& self.offset[axis].lowest()
    }

    /// Whether this is how a camera image of size `camera` covers a field of
    /// size `field`. A camera wider in shape than the field loses its sides;
    /// otherwise it is the taller of the two, or the same, and loses as much
    /// of its top and bottom.
    pub open spec fn fits(self, field: (u32, u32), camera: (u32, u32)) -> bool {
        let wide = camera.0 * field.1;
        let tall = camera.1 * field.0;
        if wide > tall {
            self.keeps_middle(0, tall, wide) && self.keeps_all(1)
        } else {
            self.keeps_all(0) && self.keeps_middle(1, wide, tall)
        }
    }

    /// How a camera image of size `camera` covers a field of size `field`.
    pub fn new(field: (u32, u32), camera: (u32, u32)) -> (cover: Cover)
        requires
            field.0 > 0,
            field.1 > 0,
            camera.0 > 0,
            camera.1 > 0,
        ensures
            cover.fits(field, camera),
    {
        assert(0 < camera.0 * field.1 <= 0xffff_ffff * 0xffff_ffff) by (nonlinear_arith)
            requires
                0 < camera.0 <= 0xffff_ffff,
                0 < field.1 <= 0xffff_ffff,
        ;
        assert(0 < camera.1 * field.0 <= 0xffff_ffff * 0xffff_ffff) by (nonlinear_arith)
            requires
                0 < camera.1 <= 0xffff_ffff,
                0 < field.0 <= 0xffff_ffff,
        ;
        // The two shapes over a common denominator: the camera's width once
        // its height is the field's, against the field's own.
        let wide: u128 = camera.0 as u128 * field.1 as u128;
        let tall: u128 = camera.1 as u128 * field.0 as u128;
        let whole: Cover = Cover::whole();
        if wide > tall {
            Cover {
                scale: [Ratio::new(tall, wide), whole.scale[1]],
                offset: [Ratio::new(wide - tall, 2 * wide), whole.offset[1]],
            }
        } else {
            Cover {
                scale: [whole.scale[0], Ratio::new(wide, tall)],
                offset: [whole.offset[0], Ratio::new(tall - wide, 2 * tall)],
            }
        }
    }
}

impl Cover {
    /// Zoom to fill never leaves a bar. One axis of the camera image is kept
    /// whole; on either axis no more than the whole image is kept, what is
    /// kept lies within the image, and as much is thrown away on one side as
    /// on the other.
    pub proof fn law_zoom_to_fill_never_leaves_a_bar(
        self,
        field: (u32, u32),
        camera: (u32, u32),
    )
        requires
            field.0 > 0,
            field.1 > 0,
            camera.0 > 0,
            camera.1 > 0,
            self.fits(field, camera),
        ensures
            self.keeps_all(0) || self.keeps_all(1),
            forall|axis: int|
                0 <= axis < 2 ==> {
                    let scale = #[trigger] self.scale[axis];
                    let offset = self.offset[axis];
                    &&& 0 < scale.den && 0 < offset.den
                    &&& 0 < scale.num <= scale.den
                    &&& 0 <= offset.num
                    // offset + scale <= 1
                    &&& offset.num * scale.den + scale.num * offset.den <= scale.den * offset.den
                    // 2 * offset + scale == 1
                    &&& 2 * offset.num * scale.den + scale.num * offset.den == scale.den
                        * offset.den
                },
    {
        lemma_shapes_are_positive(field, camera);
        let wide = camera.0 * field.1;
        let tall = camera.1 * field.0;
        let (kept, all) = if wide > tall {
            (tall, wide)
        } else {
            (wide, tall)
        };
        assert forall|axis: int| 0 <= axis < 2 implies ({
            let scale = #[trigger] self.scale[axis];
            let offset = self.offset[axis];
            &&& 0 < scale.den && 0 < offset.den
            &&& 0 < scale.num <= scale.den
            &&& 0 <= offset.num
            &&& offset.num * scale.den + scale.num * offset.den <= scale.den * offset.den
            &&& 2 * offset.num * scale.den + scale.num * offset.den == scale.den * offset.den
        }) by {
            let scale = self.scale[axis];
            let offset = self.offset[axis];
            if !self.keeps_all(axis) {
                lemma_centred(scale, offset, kept, all);
            }
        }
    }

    /// The crop never samples outside the camera image: any point of the
    /// field, `p / q` of the way along an axis, lands between the image's two
    /// edges.
    pub proof fn law_samples_stay_in_the_image(
        self,
        field: (u32, u32),
        camera: (u32, u32),
        axis: int,
        p: int,
        q: int,
    )
        requires
            field.0 > 0,
            field.1 > 0,
            camera.0 > 0,
            camera.1 > 0,
            self.fits(field, camera),
            0 <= axis < 2,
            0 <= p <= q,
            0 < q,
        ensures
            ({
                let scale = self.scale[axis];
                let offset = self.offset[axis];
                // (p / q) * scale + offset, over the common denominator
                let at = p * scale.num * offset.den + offset.num * q * scale.den;
                0 <= at <= q * scale.den * offset.den
            }),
    {
        self.law_zoom_to_fill_never_leaves_a_bar(field, camera);
        let scale = self.scale[axis];
        let offset = self.offset[axis];
        let (s, d) = (scale.num as int, scale.den as int);
        let (o, e) = (offset.num as int, offset.den as int);
        assert(0 <= p * s * e + o * q * d <= q * d * e) by (nonlinear_arith)
            requires
                0 <= p <= q,
                0 < q,
                0 < s,
                0 < d,
                0 <= o,
                0 < e,
                o * d + s * e <= d * e,
        ;
    }

    /// A camera the wrong shape is cropped, never squashed: what is kept of
    /// its image has exactly the shape of the field.
    pub proof fn law_what_is_kept_has_the_shape_of_the_field(
        self,
        field: (u32, u32),
        camera: (u32, u32),
    )
        requires
            field.0 > 0,
            field.1 > 0,
            camera.0 > 0,
            camera.1 > 0,
            self.fits(field, camera),
        ensures
            // (scale[0] * camera.0) / (scale[1] * camera.1) == field.0 / field.1
            (self.scale[0].num * camera.0) * (self.scale[1].den * field.1) == (self.scale[1].num
                * camera.1) * (self.scale[0].den * field.0),
    {
        lemma_shapes_are_positive(field, camera);
        let wide = camera.0 * field.1;
        let tall = camera.1 * field.0;
        let (a, b, c, d) = (camera.0 as int, camera.1 as int, field.0 as int, field.1 as int);
        if wide > tall {
            let (s, e) = (self.scale[0].num as int, self.scale[0].den as int);
            assert((s * a) * (1 * d) == (1 * b) * (e * c)) by (nonlinear_arith)
                requires
                    wide == a * d,
                    tall == b * c,
                    s * wide == tall * e,
            ;
        } else {
            let (s, e) = (self.scale[1].num as int, self.scale[1].den as int);
            assert((1 * a) * (e * d) == (s * b) * (1 * c)) by (nonlinear_arith)
                requires
                    wide == a * d,
                    tall == b * c,
                    s * tall == wide * e,
            ;
        }
    }

    /// Which axis is cropped, and to what. A camera wider in shape than the
    /// field loses its sides and keeps all of its height; one taller, or the
    /// same, keeps all of its width and of its height what fits. Kept is the
    /// smaller shape over the larger, and half of the rest goes on either
    /// side; each fraction is in lowest terms.
    pub proof fn law_which_axis_is_cropped(
        self,
        field: (u32, u32),
        camera: (u32, u32),
        axis: int,
        k: int,
    )
        requires
            field.0 > 0,
            field.1 > 0,
            camera.0 > 0,
            camera.1 > 0,
            self.fits(field, camera),
            0 <= axis < 2,
        ensures
            ({
                let wide = camera.0 * field.1;
                let tall = camera.1 * field.0;
                let scale = self.scale[axis];
                let offset = self.offset[axis];
                if axis == 0 && wide > tall {
                    &&& scale.num * wide == tall * scale.den
                    &&& offset.num * (2 * wide) == (wide - tall) * offset.den
                } else if axis == 1 && wide <= tall {
                    &&& scale.num * tall == wide * scale.den
                    &&& offset.num * (2 * tall) == (tall - wide) * offset.den
                } else {
                    scale.num == 1 && scale.den == 1 && offset.num == 0 && offset.den == 1
                }
            }),
            self.scale[axis].den > 0,
            self.offset[axis].den > 0,
            k > 1 ==> {
                &&& !(self.scale[axis].num as int % k == 0 && self.scale[axis].den as int % k == 0)
                &&& !(self.offset[axis].num as int % k == 0 && self.offset[axis].den as int % k
                    == 0)
            },
    {
        let wide = camera.0 * field.1;
        let tall = camera.1 * field.0;
        lemma_zero_and_one_are_lowest();
        let (scale, offset) = (self.scale[axis], self.offset[axis]);
        if axis == 0 && wide > tall {
            law_a_fraction_is_its_quotient(scale, tall, wide, k);
            law_a_fraction_is_its_quotient(offset, wide - tall, 2 * wide, k);
        } else if axis == 1 && wide <= tall {
            law_a_fraction_is_its_quotient(scale, wide, tall, k);
            law_a_fraction_is_its_quotient(offset, tall - wide, 2 * tall, k);
        } else {
            assert(scale == Ratio { num: 1, den: 1 } && offset == Ratio { num: 0, den: 1 });
            law_a_fraction_is_its_quotient(scale, 1, 1, k);
            law_a_fraction_is_its_quotient(offset, 0, 1, k);
        }
    }

    /// What keeps all of an axis is the identity on it: scaled by one, and
    /// moved by nothing.
    pub proof fn law_keeping_all_is_the_identity(self, axis: int)
        requires
            0 <= axis < 2,
        ensures
            self.keeps_all(axis) <==> {
                &&& self.scale[axis] == (Ratio { num: 1, den: 1 })
                &&& self.offset[axis] == (Ratio { num: 0, den: 1 })
            },
    {
    }

    /// A camera the shape of the field is not cropped at all, and any other
    /// camera is: the crop is the identity exactly where the shapes agree.
    pub proof fn law_only_another_shape_is_cropped(self, field: (u32, u32), camera: (u32, u32))
        requires
            field.0 > 0,
            field.1 > 0,
            camera.0 > 0,
            camera.1 > 0,
            self.fits(field, camera),
        ensures
            camera.0 * field.1 == camera.1 * field.0 <==> self.keeps_all(0) && self.keeps_all(1),
    {
        lemma_shapes_are_positive(field, camera);
        let wide = camera.0 * field.1;
        let tall = camera.1 * field.0;
        if wide == tall {
            lemma_zero_and_one_are_lowest();
            self.scale[1].law_equal_quotients_are_one_ratio(
                wide,
                tall,
                Ratio { num: 1, den: 1 },
                1,
                1,
            );
            self.offset[1].law_equal_quotients_are_one_ratio(
                0,
                2 * tall,
                Ratio { num: 0, den: 1 },
                0,
                1,
            );
        }
    }

    /// Only the shapes matter: fields and cameras of one shape and another are
    /// cropped alike, whatever their sizes.
    pub proof fn law_equal_shapes_are_cropped_alike(
        self,
        field: (u32, u32),
        camera: (u32, u32),
        other: Cover,
        other_field: (u32, u32),
        other_camera: (u32, u32),
    )
        requires
            field.0 > 0,
            field.1 > 0,
            camera.0 > 0,
            camera.1 > 0,
            other_field.0 > 0,
            other_field.1 > 0,
            other_camera.0 > 0,
            other_camera.1 > 0,
            self.fits(field, camera),
            other.fits(other_field, other_camera),
            // the one camera's shape over the one field's, and the other's
            (camera.0 * field.1) * (other_camera.1 * other_field.0) == (other_camera.0
                * other_field.1) * (camera.1 * field.0),
        ensures
            forall|axis: int|
                0 <= axis < 2 ==> #[trigger] self.scale[axis] == other.scale[axis]
                    && self.offset[axis] == other.offset[axis],
    {
        lemma_shapes_are_positive(field, camera);
        lemma_shapes_are_positive(other_field, other_camera);
        let (w, t) = (camera.0 * field.1, camera.1 * field.0);
        let (v, u) = (other_camera.0 * other_field.1, other_camera.1 * other_field.0);
        assert(w > t <==> v > u) by (nonlinear_arith)
            requires
                w * u == v * t,
                0 < w,
                0 < t,
                0 < v,
                0 < u,
        ;
        if w > t {
            assert(t * v == u * w && (w - t) * (2 * v) == (v - u) * (2 * w)) by (nonlinear_arith)
                requires
                    w * u == v * t,
            ;
            self.scale[0].law_equal_quotients_are_one_ratio(t, w, other.scale[0], u, v);
            self.offset[0].law_equal_quotients_are_one_ratio(
                w - t,
                2 * w,
                other.offset[0],
                v - u,
                2 * v,
            );
            assert(self.scale[1] == other.scale[1] && self.offset[1] == other.offset[1]);
        } else {
            assert((t - w) * (2 * u) == (u - v) * (2 * t)) by (nonlinear_arith)
                requires
                    w * u == v * t,
            ;
            self.scale[1].law_equal_quotients_are_one_ratio(w, t, other.scale[1], v, u);
            self.offset[1].law_equal_quotients_are_one_ratio(
                t - w,
                2 * t,
                other.offset[1],
                u - v,
                2 * u,
            );
            assert(self.scale[0] == other.scale[0] && self.offset[0] == other.offset[0]);
        }
    }
}

/// The two sides of the comparison of shapes are positive.
proof fn lemma_shapes_are_positive(field: (u32, u32), camera: (u32, u32))
    requires
        field.0 > 0,
        field.1 > 0,
        camera.0 > 0,
        camera.1 > 0,
    ensures
        camera.0 * field.1 > 0,
        camera.1 * field.0 > 0,
{
    assert(camera.0 * field.1 > 0) by (nonlinear_arith)
        requires
            camera.0 > 0,
            field.1 > 0,
    ;
    assert(camera.1 * field.0 > 0) by (nonlinear_arith)
        requires
            camera.1 > 0,
            field.0 > 0,
    ;
}

/// The middle `kept / all` of something is some of it, and centred.
proof fn lemma_centred(scale: Ratio, offset: Ratio, kept: int, all: int)
    requires
        0 < kept <= all,
        scale.den > 0,
        offset.den > 0,
        scale.is(kept, all),
        offset.is(all - kept, 2 * all),
    ensures
        0 < scale.num <= scale.den,
        offset.num * scale.den + scale.num * offset.den <= scale.den * offset.den,
        2 * offset.num * scale.den + scale.num * offset.den == scale.den * offset.den,
{
    let (s, d) = (scale.num as int, scale.den as int);
    let (o, e) = (offset.num as int, offset.den as int);
    assert(0 < s <= d) by (nonlinear_arith)
        requires
            s * all == kept * d,
            0 < kept <= all,
            0 < d,
    ;
    assert(2 * o * d + s * e == d * e) by (nonlinear_arith)
        requires
            s * all == kept * d,
            o * (2 * all) == (all - kept) * e,
            0 < all,
    ;
    assert(o * d + s * e <= d * e) by (nonlinear_arith)
        requires
            2 * o * d + s * e == d * e,
            0 <= o,
            0 < d,
    ;
}

} // verus!
