//! The few string operations the command line and the camera need, each with
//! an exact statement of the characters it produces or accepts.

use vstd::prelude::*;

verus! {

/// The characters of each string of a list.
pub open spec fn texts(list: Seq<String>) -> Seq<Seq<char>> {
    list.map_values(|s: String| s@)
}

/// The strings of `list` one after another, with `separator` between them.
pub open spec fn joined(list: Seq<Seq<char>>, separator: Seq<char>) -> Seq<char>
    decreases list.len(),
{
    if list.len() == 0 {
        Seq::empty()
    } else if list.len() == 1 {
        list[0]
    } else {
        joined(list.drop_last(), separator) + separator + list.last()
    }
}

/// The character of a digit below ten.
pub open spec fn digit(d: nat) -> char {
    (48 + d) as char
}

/// How `n` is written in decimal: no sign, and no leading zero but for zero
/// itself.
pub open spec fn decimal_text(n: nat) -> Seq<char>
    decreases n,
{
    if n < 10 {
        seq![digit(n)]
    } else {
        decimal_text(n / 10).push(digit(n % 10))
    }
}

pub open spec fn is_digit(c: char) -> bool {
    '0' <= c && c <= '9'
}

/// The number a string of digits stands for.
pub open spec fn value(s: Seq<char>) -> nat
    recommends
        forall|i: int| 0 <= i < s.len() ==> is_digit(s[i]),
    decreases s.len(),
{
    if s.len() == 0 {
        0
    } else {
        value(s.drop_last()) * 10 + (s.last() as nat - 48) as nat
    }
}

/// What is left of a numeral once the one plus sign it may start with is gone.
pub open spec fn unsigned(s: Seq<char>) -> Seq<char> {
    if s.len() > 0 && s[0] == '+' {
        s.skip(1)
    } else {
        s
    }
}

/// Whether `s` is a numeral: an optional plus sign, then one or more of the
/// ten ASCII digits and nothing else.
pub open spec fn is_numeral(s: Seq<char>) -> bool {
    &&& unsigned(s).len() > 0
    &&& forall|i: int| 0 <= i < unsigned(s).len() ==> is_digit(#[trigger] unsigned(s)[i])
}

/// The 32-bit number that `s` spells, if it spells one.
pub open spec fn number(s: Seq<char>) -> Option<u32> {
    if is_numeral(s) && value(unsigned(s)) <= u32::MAX {
        Some(value(unsigned(s)) as u32)
    } else {
        None
    }
}

/// Where `c` first stands in `s`, or the length of `s` where it does not.
pub open spec fn first_at(s: Seq<char>, c: char) -> int
    decreases s.len(),
{
    if s.len() == 0 {
        0
    } else if s[0] == c {
        0
    } else {
        1 + first_at(s.skip(1), c)
    }
}

/// The two numbers either side of the first `x` of `s`, if both are there.
pub open spec fn dimensions(s: Seq<char>) -> Option<(u32, u32)> {
    let at = first_at(s, 'x');
    if at < s.len() {
        match (number(s.take(at)), number(s.skip(at + 1))) {
            (Some(width), Some(height)) => Some((width, height)),
            _ => None,
        }
    } else {
        None
    }
}

/// The characters of Unicode's `White_Space` property.
pub open spec fn is_space(c: char) -> bool {
    ||| '\u{9}' <= c && c <= '\u{d}'
    ||| c == '\u{20}'
    ||| c == '\u{85}'
    ||| c == '\u{a0}'
    ||| c == '\u{1680}'
    ||| '\u{2000}' <= c && c <= '\u{200a}'
    ||| c == '\u{2028}'
    ||| c == '\u{2029}'
    ||| c == '\u{202f}'
    ||| c == '\u{205f}'
    ||| c == '\u{3000}'
}

/// `s` without the white space it starts and ends with.
pub open spec fn trimmed(s: Seq<char>) -> Seq<char>
    decreases s.len(),
{
    if s.len() == 0 {
        s
    } else if is_space(s[0]) {
        trimmed(s.skip(1))
    } else if is_space(s.last()) {
        trimmed(s.drop_last())
    } else {
        s
    }
}

/// Whether two strings hold the same characters.
pub fn same(a: &str, b: &str) -> (equal: bool)
    ensures
        equal == (a@ == b@),
{
    let left: String = a.to_owned();
    let right: String = b.to_owned();
    left == right
}

/// The characters of `s`, to be indexed.
pub fn characters(s: &str) -> (chars: Vec<char>)
    ensures
        chars@ == s@,
{
    let len: usize = s.unicode_len();
    let mut chars: Vec<char> = Vec::new();
    let mut i: usize = 0;
    while i < len
        invariant
            len == s@.len(),
            i <= len,
            chars@ == s@.take(i as int),
        decreases len - i,
    {
        chars.push(s.get_char(i));
        i = i + 1;
    }
    chars
}

/// The strings of `list` with `separator` between them.
pub fn join(list: &Vec<String>, separator: &str) -> (whole: String)
    ensures
        whole@ == joined(texts(list@), separator@),
{
    let ghost views = texts(list@);
    let mut whole: String = String::new();
    let mut i: usize = 0;
    while i < list.len()
        invariant
            i <= list@.len(),
            views == texts(list@),
            whole@ == joined(views.take(i as int), separator@),
        decreases list@.len() - i,
    {
        if i > 0 {
            whole.append(separator);
        }
        whole.append(list[i].as_str());
        i = i + 1;
        assert(views.take(i as int).drop_last() =~= views.take(i - 1));
    }
    assert(views.take(i as int) =~= views);
    whole
}

/// Puts the digit `d` behind `s`.
fn append_digit(s: &mut String, d: u32)
    requires
        d < 10,
    ensures
        final(s)@ == old(s)@.push(digit(d as nat)),
{
    let one: &str = match d {
        0 => "0",
        1 => "1",
        2 => "2",
        3 => "3",
        4 => "4",
        5 => "5",
        6 => "6",
        7 => "7",
        8 => "8",
        _ => "9",
    };
    proof {
        reveal_strlit("0");
        reveal_strlit("1");
        reveal_strlit("2");
        reveal_strlit("3");
        reveal_strlit("4");
        reveal_strlit("5");
        reveal_strlit("6");
        reveal_strlit("7");
        reveal_strlit("8");
        reveal_strlit("9");
    }
    s.append(one);
}

/// `n` in decimal.
pub fn decimal(n: u32) -> (text: String)
    ensures
        text@ == decimal_text(n as nat),
    decreases n,
{
    let mut text: String = if n < 10 {
        String::new()
    } else {
        decimal(n / 10)
    };
    append_digit(&mut text, n % 10);
    text
}

/// Puts a copy of `word` behind `list`.
pub fn push_word(list: &mut Vec<String>, word: &str)
    ensures
        texts(final(list)@) == texts(old(list)@).push(word@),
{
    list.push(word.to_owned());
}

/// Puts a copy of each string of `more` behind `list`.
pub fn push_words(list: &mut Vec<String>, more: &Vec<String>)
    ensures
        texts(final(list)@) == texts(old(list)@) + texts(more@),
{
    let mut i: usize = 0;
    while i < more.len()
        invariant
            i <= more@.len(),
            texts(list@) == texts(old(list)@) + texts(more@).take(i as int),
        decreases more@.len() - i,
    {
        push_word(list, more[i].as_str());
        i = i + 1;
    }
}

/// A size as a capture mode is written: `WIDTHxHEIGHT`.
pub open spec fn size_text(size: (u32, u32)) -> Seq<char> {
    decimal_text(size.0 as nat) + "x"@ + decimal_text(size.1 as nat)
}

/// `size` written as `WIDTHxHEIGHT`.
pub fn size_string(size: (u32, u32)) -> (text: String)
    ensures
        text@ == size_text(size),
{
    let mut text: String = decimal(size.0);
    text.append("x");
    let height: String = decimal(size.1);
    text.append(height.as_str());
    text
}

/// The value of a string of digits only grows as more of it is read.
proof fn lemma_value_prefix(s: Seq<char>, i: int)
    requires
        0 <= i <= s.len(),
    ensures
        value(s.take(i)) <= value(s),
    decreases s.len() - i,
{
    if i == s.len() {
        assert(s.take(i) =~= s);
    } else {
        lemma_value_prefix(s, i + 1);
        assert(s.take(i + 1).drop_last() =~= s.take(i));
    }
}

/// Reads `s` as an unsigned 32-bit number: an optional `+`, then digits.
pub fn parse_number(s: &[char]) -> (parsed: Option<u32>)
    ensures
        parsed == number(s@),
{
    let len: usize = s.len();
    let start: usize = if len > 0 && s[0] == '+' {
        1
    } else {
        0
    };
    let ghost digits = unsigned(s@);
    if start == len {
        return None;
    }
    let mut total: u32 = 0;
    let mut i: usize = start;
    while i < len
        invariant
            len == s@.len(),
            start <= i <= len,
            digits == s@.skip(start as int),
            digits == unsigned(s@),
            forall|j: int| 0 <= j < i - start ==> is_digit(#[trigger] digits[j]),
            total == value(digits.take(i - start)),
        decreases len - i,
    {
        let c: char = s[i];
        assert(digits[i - start] == c);
        if c < '0' || c > '9' {
            return None;
        }
        let d: u32 = c as u32 - 48;
        proof {
            let next = digits.take(i - start + 1);
            assert(next.drop_last() =~= digits.take(i - start));
            lemma_value_prefix(digits, i - start + 1);
        }
        match total.checked_mul(10) {
            None => return None,
            Some(tens) => match tens.checked_add(d) {
                None => return None,
                Some(sum) => total = sum,
            },
        }
        i = i + 1;
    }
    assert(digits.take(len - start) =~= digits);
    Some(total)
}

/// The first place of a character is where it stands with none before it.
proof fn lemma_first_at(s: Seq<char>, c: char, at: int)
    requires
        0 <= at <= s.len(),
        forall|j: int| 0 <= j < at ==> s[j] != c,
        at < s.len() ==> s[at] == c,
    ensures
        first_at(s, c) == at,
    decreases s.len(),
{
    if s.len() > 0 && at > 0 {
        lemma_first_at(s.skip(1), c, at - 1);
    }
}

/// Reads `s` as two numbers with an `x` between them.
pub fn parse_dimensions(s: &[char]) -> (parsed: Option<(u32, u32)>)
    ensures
        parsed == dimensions(s@),
{
    let len: usize = s.len();
    let mut at: usize = 0;
    while at < len && s[at] != 'x'
        invariant
            len == s@.len(),
            at <= len,
            forall|j: int| 0 <= j < at ==> s@[j] != 'x',
        decreases len - at,
    {
        at = at + 1;
    }
    proof {
        lemma_first_at(s@, 'x', at as int);
    }
    if at == len {
        return None;
    }
    let width: Option<u32> = parse_number(vstd::slice::slice_subrange(s, 0, at));
    let height: Option<u32> = parse_number(vstd::slice::slice_subrange(s, at + 1, len));
    match (width, height) {
        (Some(w), Some(h)) => Some((w, h)),
        _ => None,
    }
}

/// Whether `c` is white space.
pub fn space(c: char) -> (white: bool)
    ensures
        white == is_space(c),
{
    ('\u{9}' <= c && c <= '\u{d}') || c == '\u{20}' || c == '\u{85}' || c == '\u{a0}'
        || c == '\u{1680}' || ('\u{2000}' <= c && c <= '\u{200a}') || c == '\u{2028}'
        || c == '\u{2029}' || c == '\u{202f}' || c == '\u{205f}' || c == '\u{3000}'
}

/// `s` without the white space around it.
pub fn trim(s: &[char]) -> (inner: &[char])
    ensures
        inner@ == trimmed(s@),
{
    let mut from: usize = 0;
    let mut to: usize = s.len();
    assert(s@.subrange(0, to as int) =~= s@);
    while from < to && space(s[from])
        invariant
            from <= to,
            to == s@.len(),
            trimmed(s@.subrange(from as int, to as int)) == trimmed(s@),
        decreases to - from,
    {
        assert(s@.subrange(from as int, to as int).skip(1) =~= s@.subrange(
            from + 1,
            to as int,
        ));
        from = from + 1;
    }
    while from < to && space(s[to - 1])
        invariant
            from <= to <= s@.len(),
            from < to ==> !is_space(s@[from as int]),
            trimmed(s@.subrange(from as int, to as int)) == trimmed(s@),
        decreases to - from,
    {
        assert(s@.subrange(from as int, to as int).drop_last() =~= s@.subrange(
            from as int,
            to - 1,
        ));
        to = to - 1;
    }
    vstd::slice::slice_subrange(s, from, to)
}

/// The characters with which std's `Debug` shows a string: between double
/// quotes, with quotes, backslashes and what cannot be printed escaped.
pub uninterp spec fn debug_text(s: Seq<char>) -> Seq<char>;

/// Calls `<str as std::fmt::Debug>::fmt`, by way of `format!("{:?}")`. The
/// contract claims only that what it writes is a function of the string:
/// which characters are escaped, and how, is left unsaid.
#[verifier::external_body]
pub(crate) fn quoted(s: &str) -> (shown: String)
    ensures
        shown@ == debug_text(s@),
{
    format!("{:?}", s)
}

/// A number's decimal spelling is made of digits and reads back as the number.
pub proof fn lemma_decimal_reads_back(n: nat)
    ensures
        decimal_text(n).len() > 0,
        forall|i: int| 0 <= i < decimal_text(n).len() ==> is_digit(#[trigger] decimal_text(n)[i]),
        value(decimal_text(n)) == n,
    decreases n,
{
    if n < 10 {
        let s = decimal_text(n);
        assert(s.drop_last() =~= Seq::<char>::empty());
        assert(value(Seq::<char>::empty()) == 0);
    } else {
        lemma_decimal_reads_back(n / 10);
        let s = decimal_text(n);
        assert(s.drop_last() =~= decimal_text(n / 10));
    }
}

/// The decimal spelling of a 32-bit number parses as that number.
pub proof fn law_number_round_trip(n: u32)
    ensures
        number(decimal_text(n as nat)) == Some(n),
{
    lemma_decimal_reads_back(n as nat);
}

/// A size written as `WIDTHxHEIGHT` reads back as that size.
pub proof fn law_size_round_trip(size: (u32, u32))
    ensures
        dimensions(size_text(size)) == Some(size),
{
    reveal_strlit("x");
    let w = decimal_text(size.0 as nat);
    let h = decimal_text(size.1 as nat);
    let s = size_text(size);
    lemma_decimal_reads_back(size.0 as nat);
    assert forall|j: int| 0 <= j < w.len() implies s[j] != 'x' by {
        assert(is_digit(w[j]));
    }
    lemma_first_at(s, 'x', w.len() as int);
    assert(s.take(w.len() as int) =~= w);
    assert(s.skip(w.len() as int + 1) =~= h);
    law_number_round_trip(size.0);
    law_number_round_trip(size.1);
}

/// A list of strings is a list of their characters, one for one.
pub proof fn law_texts_are_the_strings(list: Seq<String>, i: int)
    requires
        0 <= i < list.len(),
    ensures
        texts(list).len() == list.len(),
        texts(list)[i] == list[i]@,
{
}

/// Two lists joined with a separator are the one joined, the separator, and
/// the other joined; a list of one string is that string, and a list of none
/// is nothing.
pub proof fn law_joining_goes_piece_by_piece(
    a: Seq<Seq<char>>,
    b: Seq<Seq<char>>,
    word: Seq<char>,
    separator: Seq<char>,
)
    ensures
        joined(Seq::empty(), separator) == Seq::<char>::empty(),
        joined(seq![word], separator) == word,
        a.len() > 0 && b.len() > 0 ==> joined(a + b, separator) == joined(a, separator) + separator
            + joined(b, separator),
    decreases b.len(),
{
    if a.len() > 0 && b.len() > 0 {
        assert((a + b).last() == b.last());
        assert((a + b).drop_last() =~= a + b.drop_last());
        if b.len() == 1 {
            assert(a + b.drop_last() =~= a);
        } else {
            law_joining_goes_piece_by_piece(a, b.drop_last(), word, separator);
        }
        assert(joined(a + b, separator) =~= joined(a, separator) + separator + joined(
            b,
            separator,
        ));
    }
}

/// Digits count by their places: a digit stands for itself, and one put behind
/// others makes ten of each of theirs.
pub proof fn law_digits_count_by_their_places(s: Seq<char>, c: char)
    requires
        '0' <= c,
        c <= '9',
    ensures
        value(Seq::empty()) == 0,
        value(s.push(c)) == 10 * value(s) + (c as int - '0' as int),
{
    assert(s.push(c).drop_last() =~= s);
}

/// A number is written in the ten digits, the way it is counted, and starts
/// with a zero only where it is one.
pub proof fn law_a_number_is_written_as_it_is_counted(n: nat, i: int)
    ensures
        decimal_text(n).len() > 0,
        0 <= i < decimal_text(n).len() ==> '0' <= decimal_text(n)[i] && decimal_text(n)[i] <= '9',
        value(decimal_text(n)) == n,
        decimal_text(n)[0] == '0' <==> n == 0,
        n == 0 ==> decimal_text(n).len() == 1,
    decreases n,
{
    lemma_decimal_reads_back(n);
    if 0 <= i < decimal_text(n).len() {
        assert(is_digit(decimal_text(n)[i]));
    }
    if n >= 10 {
        law_a_number_is_written_as_it_is_counted(n / 10, 0);
        assert(decimal_text(n)[0] == decimal_text(n / 10)[0]);
    }
}

/// What is read as a number is one or more of the ten digits, behind a plus
/// sign or not, that count to no more than 32 bits hold; it is read as what
/// they count to, and nothing else is read.
pub proof fn law_only_digits_are_a_number(s: Seq<char>, digits: Seq<char>)
    requires
        s == digits && !(digits.len() > 0 && digits[0] == '+') || s == seq!['+'] + digits,
    ensures
        number(s) is Some <==> {
            &&& digits.len() > 0
            &&& forall|i: int|
                0 <= i < digits.len() ==> '0' <= #[trigger] digits[i] && digits[i] <= '9'
            &&& value(digits) <= 4_294_967_295
        },
        number(s) matches Some(n) ==> n == value(digits),
{
    if s != digits {
        assert(s.skip(1) =~= digits);
    }
    assert(unsigned(s) == digits);
    if is_numeral(s) {
        assert forall|i: int| 0 <= i < digits.len() implies '0' <= #[trigger] digits[i] && digits[i]
            <= '9' by {
            assert(is_digit(unsigned(s)[i]));
        }
    }
    if forall|i: int| 0 <= i < digits.len() ==> '0' <= #[trigger] digits[i] && digits[i] <= '9' {
        assert forall|i: int| 0 <= i < unsigned(s).len() implies is_digit(
            #[trigger] unsigned(s)[i],
        ) by {
            assert('0' <= digits[i] && digits[i] <= '9');
        }
    }
}

/// A size is the two numbers either side of the first `x`: what stands before
/// it, where no other `x` does, is the width, all that stands behind it is the
/// height, and a text without one is no size.
pub proof fn law_a_size_is_split_at_the_first_x(before: Seq<char>, after: Seq<char>)
    requires
        forall|i: int| 0 <= i < before.len() ==> #[trigger] before[i] != 'x',
    ensures
        dimensions(before) is None,
        dimensions(before + seq!['x'] + after) is Some <==> number(before) is Some && number(
            after,
        ) is Some,
        dimensions(before + seq!['x'] + after) matches Some(size) ==> {
            &&& number(before) == Some(size.0)
            &&& number(after) == Some(size.1)
        },
{
    let s = before + seq!['x'] + after;
    let at = before.len() as int;
    lemma_first_at(before, 'x', at);
    assert forall|j: int| 0 <= j < at implies s[j] != 'x' by {
        assert(s[j] == before[j]);
    }
    lemma_first_at(s, 'x', at);
    assert(s.take(at) =~= before);
    assert(s.skip(at + 1) =~= after);
}

/// A size is written width first, with an `x` between the two numbers.
pub proof fn law_a_size_is_written_width_first(width: u32, height: u32)
    ensures
        size_text((width, height)) == decimal_text(width as nat) + seq!['x'] + decimal_text(
            height as nat,
        ),
{
    reveal_strlit("x");
    assert("x"@ =~= seq!['x']);
}

/// White space is the twenty-five characters of that Unicode property, by
/// their numbers, and no other.
pub proof fn law_white_space(c: char)
    ensures
        is_space(c) <==> {
            let n = c as int;
            ||| 9 <= n <= 13
            ||| n == 32
            ||| n == 133
            ||| n == 160
            ||| n == 5760
            ||| 8192 <= n <= 8202
            ||| n == 8232
            ||| n == 8233
            ||| n == 8239
            ||| n == 8287
            ||| n == 12288
        },
{
}

/// Trimming takes off the white space around a text, all of it, and nothing
/// else: what starts and ends with another character comes out as it was.
pub proof fn law_trimming_takes_off_the_white_space_around(
    before: Seq<char>,
    inner: Seq<char>,
    after: Seq<char>,
)
    requires
        forall|i: int| 0 <= i < before.len() ==> is_space(#[trigger] before[i]),
        forall|i: int| 0 <= i < after.len() ==> is_space(#[trigger] after[i]),
        inner.len() > 0 ==> !is_space(inner[0]) && !is_space(inner.last()),
    ensures
        trimmed(before + inner + after) == inner,
    decreases before.len() + after.len(),
{
    let s = before + inner + after;
    if before.len() > 0 {
        assert(s[0] == before[0]);
        assert(s.skip(1) =~= before.skip(1) + inner + after);
        law_trimming_takes_off_the_white_space_around(before.skip(1), inner, after);
    } else if after.len() > 0 {
        assert(s.last() == after[after.len() - 1]);
        if inner.len() == 0 {
            assert(s[0] == after[0]);
            assert(s.skip(1) =~= before + inner + after.skip(1));
            law_trimming_takes_off_the_white_space_around(before, inner, after.skip(1));
        } else {
            assert(s[0] == inner[0]);
            assert(s.drop_last() =~= before + inner + after.drop_last());
            law_trimming_takes_off_the_white_space_around(before, inner, after.drop_last());
        }
    } else {
        assert(s =~= inner);
    }
}

} // verus!
