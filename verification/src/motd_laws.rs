//! What the MOTD renderings do with each formatting code, stated with the
//! literal HTML and ANSI output for Minecraft's fixed palette and styles,
//! and how an unknown code is treated.

use vstd::prelude::*;

use crate::motd::{
    ansi_code, ascii_lower, has_no_code, html_from, html_style, is_section_sign, motd_ansi,
    motd_html, span_close_if, span_open,
};

verus! {

proof fn lemma_text_in_span(t: Seq<char>, open: bool)
    requires
        has_no_code(t),
    ensures
        html_from(t, open) == t + span_close_if(open),
    decreases t.len(),
{
    if t.len() > 0 {
        let r = t.drop_first();
        assert forall|i: int| 0 <= i < r.len() implies !is_section_sign(#[trigger] r[i]) by {
            assert(r[i] == t[i + 1]);
        }
        lemma_text_in_span(r, open);
        assert(!is_section_sign(t[0]));
        assert(seq![t[0]] + (r + span_close_if(open)) =~= t + span_close_if(open));
    } else {
        assert(t + span_close_if(open) =~= span_close_if(open));
    }
}

proof fn lemma_text_plain_ansi(t: Seq<char>)
    requires
        has_no_code(t),
    ensures
        motd_ansi(t) == t,
    decreases t.len(),
{
    if t.len() > 0 {
        let r = t.drop_first();
        assert forall|i: int| 0 <= i < r.len() implies !is_section_sign(#[trigger] r[i]) by {
            assert(r[i] == t[i + 1]);
        }
        lemma_text_plain_ansi(r);
        assert(!is_section_sign(t[0]));
        assert(seq![t[0]] + r =~= t);
    }
}

/// `§` + `c` + text renders as a span of the style that `c` opens.
proof fn lemma_html_styled(c: char, t: Seq<char>, expected_open: Seq<char>)
    requires
        has_no_code(t),
        html_style(ascii_lower(c)) is Some,
        span_open(html_style(ascii_lower(c))->0) == expected_open,
    ensures
        motd_html(seq!['\u{a7}', c] + t) == expected_open + t + "</span>"@,
{
    let s = seq!['\u{a7}', c] + t;
    assert(s[0] == '\u{a7}');
    assert(s[1] == c);
    assert(s.subrange(2, s.len() as int) =~= t);
    lemma_text_in_span(t, true);
    assert(span_close_if(false) =~= Seq::<char>::empty());
    assert(span_close_if(false) + expected_open + (t + "</span>"@) =~= expected_open + t
        + "</span>"@);
}

/// `§` + `c` + text renders as the escape of `c` followed by the text.
proof fn lemma_ansi_escaped(c: char, t: Seq<char>)
    requires
        has_no_code(t),
        ansi_code(ascii_lower(c)) is Some,
    ensures
        motd_ansi(seq!['\u{a7}', c] + t) == ansi_code(ascii_lower(c))->0 + t,
{
    let s = seq!['\u{a7}', c] + t;
    assert(s[0] == '\u{a7}');
    assert(s[1] == c);
    assert(s.subrange(2, s.len() as int) =~= t);
    lemma_text_plain_ansi(t);
}

/// The HTML of `§c` followed by text without codes is that text in a span
/// coloured with Minecraft's fixed palette value of colour code `c`.
#[verifier::rlimit(50)]
pub proof fn law_html_colour_palette(t: Seq<char>)
    requires
        has_no_code(t),
    ensures
        motd_html(seq!['\u{a7}', '0'] + t) == "<span style=\"color:#000000\">"@ + t + "</span>"@,
        motd_html(seq!['\u{a7}', '1'] + t) == "<span style=\"color:#0000AA\">"@ + t + "</span>"@,
        motd_html(seq!['\u{a7}', '2'] + t) == "<span style=\"color:#00AA00\">"@ + t + "</span>"@,
        motd_html(seq!['\u{a7}', '3'] + t) == "<span style=\"color:#00AAAA\">"@ + t + "</span>"@,
        motd_html(seq!['\u{a7}', '4'] + t) == "<span style=\"color:#AA0000\">"@ + t + "</span>"@,
        motd_html(seq!['\u{a7}', '5'] + t) == "<span style=\"color:#AA00AA\">"@ + t + "</span>"@,
        motd_html(seq!['\u{a7}', '6'] + t) == "<span style=\"color:#FFAA00\">"@ + t + "</span>"@,
        motd_html(seq!['\u{a7}', '7'] + t) == "<span style=\"color:#AAAAAA\">"@ + t + "</span>"@,
        motd_html(seq!['\u{a7}', '8'] + t) == "<span style=\"color:#555555\">"@ + t + "</span>"@,
        motd_html(seq!['\u{a7}', '9'] + t) == "<span style=\"color:#5555FF\">"@ + t + "</span>"@,
        motd_html(seq!['\u{a7}', 'a'] + t) == "<span style=\"color:#55FF55\">"@ + t + "</span>"@,
        motd_html(seq!['\u{a7}', 'b'] + t) == "<span style=\"color:#55FFFF\">"@ + t + "</span>"@,
        motd_html(seq!['\u{a7}', 'c'] + t) == "<span style=\"color:#FF5555\">"@ + t + "</span>"@,
        motd_html(seq!['\u{a7}', 'd'] + t) == "<span style=\"color:#FF55FF\">"@ + t + "</span>"@,
        motd_html(seq!['\u{a7}', 'e'] + t) == "<span style=\"color:#FFFF55\">"@ + t + "</span>"@,
        motd_html(seq!['\u{a7}', 'f'] + t) == "<span style=\"color:#FFFFFF\">"@ + t + "</span>"@,
{
    reveal_strlit("<span style=\"");
    reveal_strlit("\">");
    reveal_strlit("color:");
    reveal_strlit("#000000");
    reveal_strlit("#0000AA");
    reveal_strlit("#00AA00");
    reveal_strlit("#00AAAA");
    reveal_strlit("#AA0000");
    reveal_strlit("#AA00AA");
    reveal_strlit("#FFAA00");
    reveal_strlit("#AAAAAA");
    reveal_strlit("#555555");
    reveal_strlit("#5555FF");
    reveal_strlit("#55FF55");
    reveal_strlit("#55FFFF");
    reveal_strlit("#FF5555");
    reveal_strlit("#FF55FF");
    reveal_strlit("#FFFF55");
    reveal_strlit("#FFFFFF");
    reveal_strlit("<span style=\"color:#000000\">");
    reveal_strlit("<span style=\"color:#0000AA\">");
    reveal_strlit("<span style=\"color:#00AA00\">");
    reveal_strlit("<span style=\"color:#00AAAA\">");
    reveal_strlit("<span style=\"color:#AA0000\">");
    reveal_strlit("<span style=\"color:#AA00AA\">");
    reveal_strlit("<span style=\"color:#FFAA00\">");
    reveal_strlit("<span style=\"color:#AAAAAA\">");
    reveal_strlit("<span style=\"color:#555555\">");
    reveal_strlit("<span style=\"color:#5555FF\">");
    reveal_strlit("<span style=\"color:#55FF55\">");
    reveal_strlit("<span style=\"color:#55FFFF\">");
    reveal_strlit("<span style=\"color:#FF5555\">");
    reveal_strlit("<span style=\"color:#FF55FF\">");
    reveal_strlit("<span style=\"color:#FFFF55\">");
    reveal_strlit("<span style=\"color:#FFFFFF\">");
    assert(span_open(html_style('0')->0) =~= "<span style=\"color:#000000\">"@);
    lemma_html_styled('0', t, "<span style=\"color:#000000\">"@);
    assert(span_open(html_style('1')->0) =~= "<span style=\"color:#0000AA\">"@);
    lemma_html_styled('1', t, "<span style=\"color:#0000AA\">"@);
    assert(span_open(html_style('2')->0) =~= "<span style=\"color:#00AA00\">"@);
    lemma_html_styled('2', t, "<span style=\"color:#00AA00\">"@);
    assert(span_open(html_style('3')->0) =~= "<span style=\"color:#00AAAA\">"@);
    lemma_html_styled('3', t, "<span style=\"color:#00AAAA\">"@);
    assert(span_open(html_style('4')->0) =~= "<span style=\"color:#AA0000\">"@);
    lemma_html_styled('4', t, "<span style=\"color:#AA0000\">"@);
    assert(span_open(html_style('5')->0) =~= "<span style=\"color:#AA00AA\">"@);
    lemma_html_styled('5', t, "<span style=\"color:#AA00AA\">"@);
    assert(span_open(html_style('6')->0) =~= "<span style=\"color:#FFAA00\">"@);
    lemma_html_styled('6', t, "<span style=\"color:#FFAA00\">"@);
    assert(span_open(html_style('7')->0) =~= "<span style=\"color:#AAAAAA\">"@);
    lemma_html_styled('7', t, "<span style=\"color:#AAAAAA\">"@);
    assert(span_open(html_style('8')->0) =~= "<span style=\"color:#555555\">"@);
    lemma_html_styled('8', t, "<span style=\"color:#555555\">"@);
    assert(span_open(html_style('9')->0) =~= "<span style=\"color:#5555FF\">"@);
    lemma_html_styled('9', t, "<span style=\"color:#5555FF\">"@);
    assert(span_open(html_style('a')->0) =~= "<span style=\"color:#55FF55\">"@);
    lemma_html_styled('a', t, "<span style=\"color:#55FF55\">"@);
    assert(span_open(html_style('b')->0) =~= "<span style=\"color:#55FFFF\">"@);
    lemma_html_styled('b', t, "<span style=\"color:#55FFFF\">"@);
    assert(span_open(html_style('c')->0) =~= "<span style=\"color:#FF5555\">"@);
    lemma_html_styled('c', t, "<span style=\"color:#FF5555\">"@);
    assert(span_open(html_style('d')->0) =~= "<span style=\"color:#FF55FF\">"@);
    lemma_html_styled('d', t, "<span style=\"color:#FF55FF\">"@);
    assert(span_open(html_style('e')->0) =~= "<span style=\"color:#FFFF55\">"@);
    lemma_html_styled('e', t, "<span style=\"color:#FFFF55\">"@);
    assert(span_open(html_style('f')->0) =~= "<span style=\"color:#FFFFFF\">"@);
    lemma_html_styled('f', t, "<span style=\"color:#FFFFFF\">"@);
}

/// The HTML of a style code followed by text without codes is that text in
/// a span with the style's CSS: bold, italic, underline, strike-through.
pub proof fn law_html_styles(t: Seq<char>)
    requires
        has_no_code(t),
    ensures
        motd_html(seq!['\u{a7}', 'l'] + t) == "<span style=\"font-weight:bold\">"@ + t + "</span>"@,
        motd_html(seq!['\u{a7}', 'o'] + t) == "<span style=\"font-style:italic\">"@ + t + "</span>"@,
        motd_html(seq!['\u{a7}', 'n'] + t) == "<span style=\"text-decoration:underline\">"@ + t + "</span>"@,
        motd_html(seq!['\u{a7}', 'm'] + t) == "<span style=\"text-decoration:line-through\">"@ + t + "</span>"@,
{
    reveal_strlit("<span style=\"");
    reveal_strlit("\">");
    reveal_strlit("font-weight:bold");
    reveal_strlit("<span style=\"font-weight:bold\">");
    assert(span_open(html_style('l')->0) =~= "<span style=\"font-weight:bold\">"@);
    lemma_html_styled('l', t, "<span style=\"font-weight:bold\">"@);
    reveal_strlit("font-style:italic");
    reveal_strlit("<span style=\"font-style:italic\">");
    assert(span_open(html_style('o')->0) =~= "<span style=\"font-style:italic\">"@);
    lemma_html_styled('o', t, "<span style=\"font-style:italic\">"@);
    reveal_strlit("text-decoration:underline");
    reveal_strlit("<span style=\"text-decoration:underline\">");
    assert(span_open(html_style('n')->0) =~= "<span style=\"text-decoration:underline\">"@);
    lemma_html_styled('n', t, "<span style=\"text-decoration:underline\">"@);
    reveal_strlit("text-decoration:line-through");
    reveal_strlit("<span style=\"text-decoration:line-through\">");
    assert(span_open(html_style('m')->0) =~= "<span style=\"text-decoration:line-through\">"@);
    lemma_html_styled('m', t, "<span style=\"text-decoration:line-through\">"@);
}

/// The ANSI rendering of `§c` followed by text without codes is the SGR
/// escape of code `c` followed by the text.
pub proof fn law_ansi_escapes(t: Seq<char>)
    requires
        has_no_code(t),
    ensures
        motd_ansi(seq!['\u{a7}', 'r'] + t) == "\x1b[0m"@ + t,
        motd_ansi(seq!['\u{a7}', '0'] + t) == "\x1b[30m"@ + t,
        motd_ansi(seq!['\u{a7}', '1'] + t) == "\x1b[34m"@ + t,
        motd_ansi(seq!['\u{a7}', '2'] + t) == "\x1b[32m"@ + t,
        motd_ansi(seq!['\u{a7}', '3'] + t) == "\x1b[36m"@ + t,
        motd_ansi(seq!['\u{a7}', '4'] + t) == "\x1b[31m"@ + t,
        motd_ansi(seq!['\u{a7}', '5'] + t) == "\x1b[35m"@ + t,
        motd_ansi(seq!['\u{a7}', '6'] + t) == "\x1b[33m"@ + t,
        motd_ansi(seq!['\u{a7}', '7'] + t) == "\x1b[37m"@ + t,
        motd_ansi(seq!['\u{a7}', '8'] + t) == "\x1b[90m"@ + t,
        motd_ansi(seq!['\u{a7}', '9'] + t) == "\x1b[94m"@ + t,
        motd_ansi(seq!['\u{a7}', 'a'] + t) == "\x1b[92m"@ + t,
        motd_ansi(seq!['\u{a7}', 'b'] + t) == "\x1b[96m"@ + t,
        motd_ansi(seq!['\u{a7}', 'c'] + t) == "\x1b[91m"@ + t,
        motd_ansi(seq!['\u{a7}', 'd'] + t) == "\x1b[95m"@ + t,
        motd_ansi(seq!['\u{a7}', 'e'] + t) == "\x1b[93m"@ + t,
        motd_ansi(seq!['\u{a7}', 'f'] + t) == "\x1b[97m"@ + t,
        motd_ansi(seq!['\u{a7}', 'l'] + t) == "\x1b[1m"@ + t,
        motd_ansi(seq!['\u{a7}', 'o'] + t) == "\x1b[3m"@ + t,
        motd_ansi(seq!['\u{a7}', 'n'] + t) == "\x1b[4m"@ + t,
        motd_ansi(seq!['\u{a7}', 'm'] + t) == "\x1b[9m"@ + t,
{
    lemma_ansi_escaped('r', t);
    lemma_ansi_escaped('0', t);
    lemma_ansi_escaped('1', t);
    lemma_ansi_escaped('2', t);
    lemma_ansi_escaped('3', t);
    lemma_ansi_escaped('4', t);
    lemma_ansi_escaped('5', t);
    lemma_ansi_escaped('6', t);
    lemma_ansi_escaped('7', t);
    lemma_ansi_escaped('8', t);
    lemma_ansi_escaped('9', t);
    lemma_ansi_escaped('a', t);
    lemma_ansi_escaped('b', t);
    lemma_ansi_escaped('c', t);
    lemma_ansi_escaped('d', t);
    lemma_ansi_escaped('e', t);
    lemma_ansi_escaped('f', t);
    lemma_ansi_escaped('l', t);
    lemma_ansi_escaped('o', t);
    lemma_ansi_escaped('n', t);
    lemma_ansi_escaped('m', t);
}

/// A reset code closes the open span and adds nothing else; without an
/// open span it is invisible.
pub proof fn law_html_reset(a: Seq<char>, b: Seq<char>)
    requires
        has_no_code(a),
    ensures
        motd_html(a + seq!['\u{a7}', 'r'] + b) == a + motd_html(b),
        html_from(seq!['\u{a7}', 'r'] + b, true) == "</span>"@ + motd_html(b),
{
    lemma_prefix_text(a, seq!['\u{a7}', 'r'] + b, false);
    let s = seq!['\u{a7}', 'r'] + b;
    assert(s[0] == '\u{a7}' && s[1] == 'r');
    assert(s.subrange(2, s.len() as int) =~= b);
    assert(a + seq!['\u{a7}', 'r'] + b =~= a + s);
    assert(span_close_if(false) =~= Seq::<char>::empty());
    assert(span_close_if(false) + motd_html(b) =~= motd_html(b));
    assert(span_close_if(true) + html_from(b, false) == "</span>"@ + motd_html(b));
}

/// Text without codes in front of the rest is copied as it is, and leaves
/// the state of the rendering unchanged.
proof fn lemma_prefix_text(a: Seq<char>, b: Seq<char>, open: bool)
    requires
        has_no_code(a),
    ensures
        html_from(a + b, open) == a + html_from(b, open),
        motd_ansi(a + b) == a + motd_ansi(b),
    decreases a.len(),
{
    if a.len() > 0 {
        let r = a.drop_first();
        assert forall|i: int| 0 <= i < r.len() implies !is_section_sign(#[trigger] r[i]) by {
            assert(r[i] == a[i + 1]);
        }
        lemma_prefix_text(r, b, open);
        assert(!is_section_sign(a[0]));
        assert((a + b)[0] == a[0]);
        assert((a + b).drop_first() =~= r + b);
        assert(seq![a[0]] + (r + html_from(b, open)) =~= a + html_from(b, open));
        assert(seq![a[0]] + (r + motd_ansi(b)) =~= a + motd_ansi(b));
    } else {
        assert(a + b =~= b);
        assert(a + html_from(b, open) =~= html_from(b, open));
        assert(a + motd_ansi(b) =~= motd_ansi(b));
    }
}

/// A character that is no Minecraft colour, style or reset code: not a hex
/// digit and none of `l`, `o`, `n`, `m`, `r` in either case.
pub open spec fn is_unknown_code(c: char) -> bool {
    &&& !('0' <= c && c <= '9')
    &&& !('a' <= c && c <= 'f')
    &&& !('A' <= c && c <= 'F')
    &&& c != 'l' && c != 'L' && c != 'o' && c != 'O'
    &&& c != 'n' && c != 'N' && c != 'm' && c != 'M'
    &&& c != 'r' && c != 'R'
}

/// An unknown code is invisible: removing `§c` from a MOTD changes neither
/// its HTML (no span is closed or opened) nor its ANSI rendering.
pub proof fn law_unknown_code_is_invisible(a: Seq<char>, c: char, b: Seq<char>, open: bool)
    requires
        has_no_code(a),
        is_unknown_code(c),
    ensures
        html_from(a + seq!['\u{a7}', c] + b, open) == html_from(a + b, open),
        motd_html(a + seq!['\u{a7}', c] + b) == motd_html(a + b),
        motd_ansi(a + seq!['\u{a7}', c] + b) == motd_ansi(a + b),
{
    let s = seq!['\u{a7}', c] + b;
    assert(a + seq!['\u{a7}', c] + b =~= a + s);
    lemma_prefix_text(a, s, open);
    lemma_prefix_text(a, s, false);
    lemma_prefix_text(a, b, open);
    lemma_prefix_text(a, b, false);
    assert(s[0] == '\u{a7}' && s[1] == c);
    assert(s.subrange(2, s.len() as int) =~= b);
    let code = ascii_lower(c);
    assert(code != 'r');
    assert(html_style(code) is None);
    assert(ansi_code(code) is None);
}

/// Codes are case-insensitive: an upper-case code letter renders as its
/// lower-case letter does, in HTML and in ANSI.
pub proof fn law_codes_ignore_case(upper: char, lower: char, b: Seq<char>, open: bool)
    requires
        'A' <= upper <= 'Z',
        lower as u32 == upper as u32 + 32,
    ensures
        html_from(seq!['\u{a7}', upper] + b, open) == html_from(seq!['\u{a7}', lower] + b, open),
        motd_ansi(seq!['\u{a7}', upper] + b) == motd_ansi(seq!['\u{a7}', lower] + b),
{
    let s = seq!['\u{a7}', upper] + b;
    let t = seq!['\u{a7}', lower] + b;
    assert(s[0] == '\u{a7}' && s[1] == upper && t[0] == '\u{a7}' && t[1] == lower);
    assert(s.subrange(2, s.len() as int) =~= b);
    assert(t.subrange(2, t.len() as int) =~= b);
    assert(ascii_lower(upper) == lower);
    assert(ascii_lower(lower) == lower);
}

} // verus!
