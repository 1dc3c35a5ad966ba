//! Colors and type faces of the terminal.
//!
//! A painted text stands between the control sequences of its style. It is shown only where the
//! standard output shows colors, which rests on the terminal, on the environment and on what the
//! program has set by hand.

use owo_colors::OwoColorize;
use vstd::prelude::*;

use crate::clock::digit;

verus! {

/// A number below 256 in decimal notation, without leading zeros.
pub open spec fn decimal(n: int) -> Seq<char> {
    if n < 10 {
        seq![digit(n)]
    } else if n < 100 {
        seq![digit(n / 10), digit(n % 10)]
    } else {
        seq![digit(n / 100), digit(n / 10 % 10), digit(n % 10)]
    }
}

/// A text in a color of 24 bits, and after it the terminal's own color again.
pub open spec fn in_color(text: Seq<char>, red: u8, green: u8, blue: u8) -> Seq<char> {
    "\x1b[38;2;"@ + decimal(red as int) + ";"@ + decimal(green as int) + ";"@ + decimal(
        blue as int,
    ) + "m"@ + text + "\x1b[39m"@
}

/// A text in the CSS color `dimgray`.
pub open spec fn in_dim_gray(text: Seq<char>) -> Seq<char> {
    in_color(text, 105, 105, 105)
}

/// A text in bold face, and after it the terminal's own style again.
pub open spec fn in_bold(text: Seq<char>) -> Seq<char> {
    "\x1b[1m"@ + text + "\x1b[0m"@
}

/// `Display` of `owo_colors::OwoColorize::truecolor`. Claimed: the text in the color.
#[verifier::external_body]
pub(crate) fn color(text: &str, red: u8, green: u8, blue: u8) -> (painted: String)
    ensures
        painted@ == in_color(text@, red, green, blue),
{
    text.truecolor(red, green, blue).to_string()
}

/// `Display` of `owo_colors::OwoColorize::fg` with the color `DimGray`. Claimed: the text in that
/// color.
#[verifier::external_body]
pub(crate) fn dim_gray(text: &str) -> (painted: String)
    ensures
        painted@ == in_dim_gray(text@),
{
    text.fg::<owo_colors::colors::css::DimGray>().to_string()
}

/// `Display` of `owo_colors::OwoColorize::bold`. Claimed: the text in bold face.
#[verifier::external_body]
pub(crate) fn bold(text: &str) -> (painted: String)
    ensures
        painted@ == in_bold(text@),
{
    text.bold().to_string()
}

/// `Display` of `owo_colors::OwoColorize::if_supports_color` for the standard output. Claimed: one
/// of the two texts; which of them rests on the terminal and on the environment.
#[verifier::external_body]
pub(crate) fn if_supports_color(plain: &str, painted: &str) -> (shown: String)
    ensures
        shown@ == plain@ || shown@ == painted@,
{
    plain.if_supports_color(owo_colors::Stream::Stdout, |_| painted).to_string()
}

/// What is left of a text after the end of a control sequence, which is the letter `m`.
pub open spec fn after_sequence(text: Seq<char>) -> Seq<char>
    decreases text.len(),
{
    if text.len() == 0 {
        text
    } else if text[0] == 'm' {
        text.skip(1)
    } else {
        after_sequence(text.skip(1))
    }
}

/// What a terminal shows of a text: everything but control sequences, which begin with an escape
/// and end with the letter `m`.
pub open spec fn visible(text: Seq<char>) -> Seq<char>
    decreases text.len(),
    via visible_decreases
{
    if text.len() == 0 {
        text
    } else if text[0] == '\x1b' {
        visible(after_sequence(text))
    } else {
        seq![text[0]] + visible(text.skip(1))
    }
}

#[via_fn]
proof fn visible_decreases(text: Seq<char>) {
    lemma_after_sequence_is_shorter(text);
}

/// Something of a text belongs to the control sequence at its beginning.
proof fn lemma_after_sequence_is_shorter(text: Seq<char>)
    ensures
        after_sequence(text).len() <= text.len(),
        text.len() > 0 ==> after_sequence(text).len() < text.len(),
    decreases text.len(),
{
    if text.len() > 0 && text[0] != 'm' {
        lemma_after_sequence_is_shorter(text.skip(1));
    }
}

/// The control sequence ends with the first `m`.
proof fn lemma_after_sequence_at_first_m(start: Seq<char>, rest: Seq<char>)
    requires
        !start.contains('m'),
    ensures
        after_sequence(start + seq!['m'] + rest) == rest,
    decreases start.len(),
{
    let text = start + seq!['m'] + rest;
    if start.len() == 0 {
        assert(text.skip(1) == rest);
    } else {
        assert(start[0] != 'm');
        assert(forall|i: int| 0 <= i < start.skip(1).len() ==> start.skip(1)[i] == start[i + 1]);
        lemma_after_sequence_at_first_m(start.skip(1), rest);
        assert(text.skip(1) == start.skip(1) + seq!['m'] + rest);
    }
}

/// A text without an escape is shown as it is.
pub(crate) proof fn lemma_plain_text_is_visible(plain: Seq<char>, rest: Seq<char>)
    requires
        !plain.contains('\x1b'),
    ensures
        visible(plain + rest) == plain + visible(rest),
    decreases plain.len(),
{
    if plain.len() == 0 {
        assert(plain + rest == rest);
        assert(plain + visible(rest) == visible(rest));
    } else {
        assert(plain[0] != '\x1b');
        assert(forall|i: int| 0 <= i < plain.skip(1).len() ==> plain.skip(1)[i] == plain[i + 1]);
        lemma_plain_text_is_visible(plain.skip(1), rest);
        assert((plain + rest).skip(1) == plain.skip(1) + rest);
        assert(seq![plain[0]] + (plain.skip(1) + visible(rest)) == plain + visible(rest));
    }
}

/// A control sequence is not shown.
proof fn lemma_sequence_is_invisible(start: Seq<char>, rest: Seq<char>)
    requires
        start.len() > 0,
        start[0] == '\x1b',
        !start.contains('m'),
    ensures
        visible(start + seq!['m'] + rest) == visible(rest),
{
    lemma_after_sequence_at_first_m(start, rest);
}

/// A text without an escape looks the same in color.
pub(crate) proof fn lemma_colored_text_is_visible(
    text: Seq<char>,
    red: u8,
    green: u8,
    blue: u8,
    rest: Seq<char>,
)
    requires
        !text.contains('\x1b'),
    ensures
        visible(in_color(text, red, green, blue) + rest) == text + visible(rest),
{
    reveal_strlit("\x1b[38;2;");
    reveal_strlit(";");
    reveal_strlit("m");
    reveal_strlit("\x1b[39m");
    let start = "\x1b[38;2;"@ + decimal(red as int) + ";"@ + decimal(green as int) + ";"@ + decimal(
        blue as int,
    );
    let end = seq!['\x1b', '[', '3', '9'];
    let after = end + seq!['m'] + rest;
    assert(in_color(text, red, green, blue) + rest == start + seq!['m'] + (text + after));
    lemma_sequence_is_invisible(start, text + after);
    lemma_plain_text_is_visible(text, after);
    lemma_sequence_is_invisible(end, rest);
}

/// A text without an escape looks the same in bold, but for the face.
pub(crate) proof fn lemma_bold_text_is_visible(text: Seq<char>, rest: Seq<char>)
    requires
        !text.contains('\x1b'),
    ensures
        visible(in_bold(text) + rest) == text + visible(rest),
{
    reveal_strlit("\x1b[1m");
    reveal_strlit("\x1b[0m");
    let start = seq!['\x1b', '[', '1'];
    let end = seq!['\x1b', '[', '0'];
    let after = end + seq!['m'] + rest;
    assert(in_bold(text) + rest == start + seq!['m'] + (text + after));
    lemma_sequence_is_invisible(start, text + after);
    lemma_plain_text_is_visible(text, after);
    lemma_sequence_is_invisible(end, rest);
}

/// What the terminal shows where it has the choice between a plain and a painted text. It is known
/// of what [`if_supports_color`] returned for the two texts, and of nothing else.
pub closed spec fn terminal_shows(plain: Seq<char>, painted: Seq<char>, shown: Seq<char>) -> bool {
    exists|p: &str, q: &str, s: String|
        p@ == plain && q@ == painted && s@ == shown && #[trigger] call_ensures(
            if_supports_color,
            (p, q),
            s,
        )
}

/// What the terminal shows has been asked of it, with the plain and with the painted text, and is
/// one of the two. So a line is painted if and only if the terminal chose to, whatever the line is.
pub(crate) proof fn law_terminal_decides(plain: Seq<char>, painted: Seq<char>, shown: Seq<char>)
    ensures
        terminal_shows(plain, painted, shown) ==> exists|p: &str, q: &str, s: String|
            p@ == plain && q@ == painted && s@ == shown && #[trigger] call_ensures(
                if_supports_color,
                (p, q),
                s,
            ),
        terminal_shows(plain, painted, shown) ==> shown == plain || shown == painted,
{
}

/// The terminal has answered whether the standard output shows colors: asked to choose between a
/// plain and a painted text that are not the same, it took the painted one if it does and the
/// plain one if it does not.
pub closed spec fn terminal_answered(colors: bool) -> bool {
    exists|p: &str, q: &str, s: String|
        p@ != q@ && s@ == (if colors {
            q@
        } else {
            p@
        }) && #[trigger] call_ensures(if_supports_color, (p, q), s)
}

/// The answer of the terminal is known only where it has been asked with two texts that are not the
/// same, and shows in which of them it took.
pub(crate) proof fn law_terminal_is_asked(colors: bool)
    ensures
        terminal_answered(colors) ==> exists|p: &str, q: &str, s: String|
            p@ != q@ && s@ == (if colors {
                q@
            } else {
                p@
            }) && #[trigger] call_ensures(if_supports_color, (p, q), s),
{
}

/// Of a plain text and a painted one that is not the same, the terminal shows the painted one if
/// it answered that the standard output shows colors, and the plain one if it answered that it
/// does not.
pub proof fn law_shown_as_the_terminal_answered(
    plain: Seq<char>,
    painted: Seq<char>,
    shown: Seq<char>,
)
    requires
        terminal_shows(plain, painted, shown),
        plain != painted,
    ensures
        shown == painted ==> terminal_answered(true),
        shown != painted ==> shown == plain && terminal_answered(false),
{
}

/// The digits of a number give the number back, and the first of several is not zero.
pub proof fn law_decimal_digits(n: int)
    requires
        0 <= n < 256,
    ensures
        ({
            let d = decimal(n);
            &&& forall|i: int| 0 <= i < d.len() ==> '0' <= #[trigger] d[i] <= '9'
            &&& d.len() == 1 ==> n == d[0] as int - 48
            &&& d.len() == 2 ==> n == 10 * (d[0] as int - 48) + (d[1] as int - 48) && d[0] != '0'
            &&& d.len() == 3 ==> n == 100 * (d[0] as int - 48) + 10 * (d[1] as int - 48) + (
            d[2] as int - 48) && d[0] != '0'
            &&& 1 <= d.len() <= 3
        }),
{
}

/// Between the control sequences of a style stands the text, whatever it is: the one that sets the
/// color or the face comes first, the one that takes it back comes last, and nothing else is there.
pub proof fn law_styles_surround_the_text(text: Seq<char>, red: u8, green: u8, blue: u8)
    ensures
        in_color(text, red, green, blue) == seq!['\x1b', '[', '3', '8', ';', '2', ';'] + decimal(
            red as int,
        ) + seq![';'] + decimal(green as int) + seq![';'] + decimal(blue as int) + seq!['m'] + text
            + seq!['\x1b', '[', '3', '9', 'm'],
        in_dim_gray(text) == "\x1b[38;2;105;105;105m"@ + text + "\x1b[39m"@,
        in_bold(text) == seq!['\x1b', '[', '1', 'm'] + text + seq!['\x1b', '[', '0', 'm'],
{
    reveal_strlit("\x1b[38;2;");
    reveal_strlit(";");
    reveal_strlit("m");
    reveal_strlit("\x1b[39m");
    reveal_strlit("\x1b[38;2;105;105;105m");
    reveal_strlit("\x1b[1m");
    reveal_strlit("\x1b[0m");
    assert(in_color(text, red, green, blue) =~= seq!['\x1b', '[', '3', '8', ';', '2', ';'] + decimal(
        red as int,
    ) + seq![';'] + decimal(green as int) + seq![';'] + decimal(blue as int) + seq!['m'] + text
        + seq!['\x1b', '[', '3', '9', 'm']);
    assert(in_dim_gray(text) =~= "\x1b[38;2;105;105;105m"@ + text + "\x1b[39m"@);
}

/// What [`if_supports_color`] returned is what the terminal shows.
pub(crate) proof fn lemma_terminal_was_asked(plain: &str, painted: &str, shown: String)
    requires
        call_ensures(if_supports_color, (plain, painted), shown),
    ensures
        terminal_shows(plain@, painted@, shown@),
{
}

} // verus!
