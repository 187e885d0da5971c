//! Minecraft `§`-formatting codes: conversion of a MOTD to HTML and to ANSI
//! terminal escapes, and the four renderings of a MOTD.

use vstd::prelude::*;

use vstd::string::StringExecFns;

use crate::text::{chars_of, is_white_space, push_str, string_from_chars};

verus! {

/// The section sign `§` that introduces a formatting code.
pub open spec fn is_section_sign(c: char) -> bool {
    c == '\u{a7}'
}

/// ASCII lower-casing of one character (`char::to_ascii_lowercase`).
pub open spec fn ascii_lower(c: char) -> char {
    if 'A' <= c && c <= 'Z' {
        ((c as u32) + 32) as char
    } else {
        c
    }
}

/// Executable form of [`ascii_lower`].
pub fn to_ascii_lower(c: char) -> (r: char)
    ensures
        r == ascii_lower(c),
{
    if 'A' <= c && c <= 'Z' {
        let b: u8 = (c as u8) + 32;
        b as char
    } else {
        c
    }
}

/// Hex colour of a (lower-case) Minecraft colour code.
pub open spec fn color_hex(code: char) -> Option<Seq<char>> {
    if code == '0' { Some("#000000"@) }
    else if code == '1' { Some("#0000AA"@) }
    else if code == '2' { Some("#00AA00"@) }
    else if code == '3' { Some("#00AAAA"@) }
    else if code == '4' { Some("#AA0000"@) }
    else if code == '5' { Some("#AA00AA"@) }
    else if code == '6' { Some("#FFAA00"@) }
    else if code == '7' { Some("#AAAAAA"@) }
    else if code == '8' { Some("#555555"@) }
    else if code == '9' { Some("#5555FF"@) }
    else if code == 'a' { Some("#55FF55"@) }
    else if code == 'b' { Some("#55FFFF"@) }
    else if code == 'c' { Some("#FF5555"@) }
    else if code == 'd' { Some("#FF55FF"@) }
    else if code == 'e' { Some("#FFFF55"@) }
    else if code == 'f' { Some("#FFFFFF"@) }
    else { None }
}

/// Maps a Minecraft colour code character (lower-case) to its hex colour.
pub fn mc_color_hex(code: char) -> (r: Option<&'static str>)
    ensures
        match r {
            Some(h) => color_hex(code) == Some(h@),
            None => color_hex(code) is None,
        },
{
    if code == '0' { Some("#000000") }
    else if code == '1' { Some("#0000AA") }
    else if code == '2' { Some("#00AA00") }
    else if code == '3' { Some("#00AAAA") }
    else if code == '4' { Some("#AA0000") }
    else if code == '5' { Some("#AA00AA") }
    else if code == '6' { Some("#FFAA00") }
    else if code == '7' { Some("#AAAAAA") }
    else if code == '8' { Some("#555555") }
    else if code == '9' { Some("#5555FF") }
    else if code == 'a' { Some("#55FF55") }
    else if code == 'b' { Some("#55FFFF") }
    else if code == 'c' { Some("#FF5555") }
    else if code == 'd' { Some("#FF55FF") }
    else if code == 'e' { Some("#FFFF55") }
    else if code == 'f' { Some("#FFFFFF") }
    else { None }
}

/// The inline CSS that a (lower-case) code opens, if any: a colour, bold,
/// italic, underline or strike-through. `r` (reset) is handled apart.
pub open spec fn html_style(code: char) -> Option<Seq<char>> {
    match color_hex(code) {
        Some(hex) => Some("color:"@ + hex),
        None => {
            if code == 'l' { Some("font-weight:bold"@) }
            else if code == 'o' { Some("font-style:italic"@) }
            else if code == 'n' { Some("text-decoration:underline"@) }
            else if code == 'm' { Some("text-decoration:line-through"@) }
            else { None }
        },
    }
}

/// The opening tag of a styled span.
pub open spec fn span_open(style: Seq<char>) -> Seq<char> {
    "<span style=\""@ + style + "\">"@
}

/// The closing tag, emitted only when a span is open.
pub open spec fn span_close_if(open: bool) -> Seq<char> {
    if open { "</span>"@ } else { Seq::empty() }
}

/// HTML rendering of `s`, given whether a span is currently open.
///
/// Text is copied; `§r` closes an open span; a colour or style code closes
/// an open span and opens a new one; an unknown code is dropped; a trailing
/// lone `§` ends the text. An open span is closed at the end.
pub open spec fn html_from(s: Seq<char>, open: bool) -> Seq<char>
    decreases s.len(),
{
    if s.len() == 0 {
        span_close_if(open)
    } else if !is_section_sign(s[0]) {
        seq![s[0]] + html_from(s.drop_first(), open)
    } else if s.len() == 1 {
        span_close_if(open)
    } else {
        let code = ascii_lower(s[1]);
        let rest = s.subrange(2, s.len() as int);
        if code == 'r' {
            span_close_if(open) + html_from(rest, false)
        } else {
            match html_style(code) {
                Some(style) => span_close_if(open) + span_open(style) + html_from(rest, true),
                None => html_from(rest, open),
            }
        }
    }
}

/// HTML rendering of a MOTD.
pub open spec fn motd_html(s: Seq<char>) -> Seq<char> {
    html_from(s, false)
}

/// ANSI escape of a (lower-case) code, if it has one.
pub open spec fn ansi_code(code: char) -> Option<Seq<char>> {
    if code == 'r' { Some("\x1b[0m"@) }
    else if code == '0' { Some("\x1b[30m"@) }
    else if code == '1' { Some("\x1b[34m"@) }
    else if code == '2' { Some("\x1b[32m"@) }
    else if code == '3' { Some("\x1b[36m"@) }
    else if code == '4' { Some("\x1b[31m"@) }
    else if code == '5' { Some("\x1b[35m"@) }
    else if code == '6' { Some("\x1b[33m"@) }
    else if code == '7' { Some("\x1b[37m"@) }
    else if code == '8' { Some("\x1b[90m"@) }
    else if code == '9' { Some("\x1b[94m"@) }
    else if code == 'a' { Some("\x1b[92m"@) }
    else if code == 'b' { Some("\x1b[96m"@) }
    else if code == 'c' { Some("\x1b[91m"@) }
    else if code == 'd' { Some("\x1b[95m"@) }
    else if code == 'e' { Some("\x1b[93m"@) }
    else if code == 'f' { Some("\x1b[97m"@) }
    else if code == 'l' { Some("\x1b[1m"@) }
    else if code == 'o' { Some("\x1b[3m"@) }
    else if code == 'n' { Some("\x1b[4m"@) }
    else if code == 'm' { Some("\x1b[9m"@) }
    else { None }
}

/// ANSI rendering of a MOTD: text is copied, each known code becomes its
/// escape, an unknown code is dropped and a trailing lone `§` ends the text.
pub open spec fn motd_ansi(s: Seq<char>) -> Seq<char>
    decreases s.len(),
{
    if s.len() == 0 {
        Seq::empty()
    } else if !is_section_sign(s[0]) {
        seq![s[0]] + motd_ansi(s.drop_first())
    } else if s.len() == 1 {
        Seq::empty()
    } else {
        let rest = s.subrange(2, s.len() as int);
        match ansi_code(ascii_lower(s[1])) {
            Some(esc) => esc + motd_ansi(rest),
            None => motd_ansi(rest),
        }
    }
}

fn ansi_escape(code: char) -> (r: Option<&'static str>)
    ensures
        match r {
            Some(e) => ansi_code(code) == Some(e@),
            None => ansi_code(code) is None,
        },
{
    if code == 'r' { Some("\x1b[0m") }
    else if code == '0' { Some("\x1b[30m") }
    else if code == '1' { Some("\x1b[34m") }
    else if code == '2' { Some("\x1b[32m") }
    else if code == '3' { Some("\x1b[36m") }
    else if code == '4' { Some("\x1b[31m") }
    else if code == '5' { Some("\x1b[35m") }
    else if code == '6' { Some("\x1b[33m") }
    else if code == '7' { Some("\x1b[37m") }
    else if code == '8' { Some("\x1b[90m") }
    else if code == '9' { Some("\x1b[94m") }
    else if code == 'a' { Some("\x1b[92m") }
    else if code == 'b' { Some("\x1b[96m") }
    else if code == 'c' { Some("\x1b[91m") }
    else if code == 'd' { Some("\x1b[95m") }
    else if code == 'e' { Some("\x1b[93m") }
    else if code == 'f' { Some("\x1b[97m") }
    else if code == 'l' { Some("\x1b[1m") }
    else if code == 'o' { Some("\x1b[3m") }
    else if code == 'n' { Some("\x1b[4m") }
    else if code == 'm' { Some("\x1b[9m") }
    else { None }
}

fn html_style_of(code: char) -> (r: Option<Vec<char>>)
    ensures
        match r {
            Some(v) => html_style(code) == Some(v@),
            None => html_style(code) is None,
        },
{
    match mc_color_hex(code) {
        Some(hex) => {
            let mut style = chars_of("color:");
            push_str(&mut style, hex);
            Some(style)
        },
        None => {
            if code == 'l' { Some(chars_of("font-weight:bold")) }
            else if code == 'o' { Some(chars_of("font-style:italic")) }
            else if code == 'n' { Some(chars_of("text-decoration:underline")) }
            else if code == 'm' { Some(chars_of("text-decoration:line-through")) }
            else { None }
        },
    }
}

proof fn lemma_skip_step(s: Seq<char>, i: int)
    requires
        0 <= i < s.len(),
    ensures
        s.skip(i)[0] == s[i],
        s.skip(i).drop_first() == s.skip(i + 1),
        s.skip(i).len() == s.len() - i,
{
    assert(s.skip(i).drop_first() =~= s.skip(i + 1));
}

proof fn lemma_skip_two(s: Seq<char>, i: int)
    requires
        0 <= i,
        i + 1 < s.len(),
    ensures
        s.skip(i)[1] == s[i + 1],
        s.skip(i).subrange(2, s.skip(i).len() as int) == s.skip(i + 2),
{
    assert(s.skip(i).subrange(2, s.skip(i).len() as int) =~= s.skip(i + 2));
}

/// Convert a MOTD with `§`-codes into inline-styled HTML.
pub fn mc_to_html(text: &str) -> (html: String)
    ensures
        html@ == motd_html(text@),
{
    let s = chars_of(text);
    let n = s.len();
    let mut out: Vec<char> = Vec::new();
    let mut open = false;
    let mut i: usize = 0;
    assert(s@.skip(0) =~= s@);
    while i < n
        invariant
            i <= n,
            n == s@.len(),
            s@ == text@,
            out@ + html_from(s@.skip(i as int), open) == motd_html(text@),
        decreases n - i,
    {
        let ghost before = out@;
        let ghost was_open = open;
        proof {
            lemma_skip_step(s@, i as int);
        }
        let c = s[i];
        if c != '\u{a7}' {
            out.push(c);
            assert(out@ + html_from(s@.skip(i + 1), open) =~= before + html_from(
                s@.skip(i as int),
                open,
            ));
            i = i + 1;
        } else if i + 1 == n {
            assert(s@.skip(i + 1).len() == 0);
            proof {
                reveal_with_fuel(html_from, 2);
            }
            i = n;
        } else {
            proof {
                lemma_skip_two(s@, i as int);
            }
            let code = to_ascii_lower(s[i + 1]);
            if code == 'r' {
                if open {
                    push_str(&mut out, "</span>");
                    open = false;
                }
                assert(out@ + html_from(s@.skip(i + 2), open) =~= before + html_from(
                    s@.skip(i as int),
                    was_open,
                ));
            } else {
                match html_style_of(code) {
                    Some(mut style) => {
                        if open {
                            push_str(&mut out, "</span>");
                        }
                        push_str(&mut out, "<span style=\"");
                        out.append(&mut style);
                        push_str(&mut out, "\">");
                        open = true;
                        assert(out@ + html_from(s@.skip(i + 2), open) =~= before + html_from(
                            s@.skip(i as int),
                            was_open,
                        ));
                    },
                    None => {},
                }
            }
            i = i + 2;
        }
    }
    if open {
        push_str(&mut out, "</span>");
    }
    assert(out@ =~= motd_html(text@));
    string_from_chars(&out)
}

/// Convert a MOTD with `§`-codes into a terminal ANSI escape sequence.
pub fn mc_to_ansi(text: &str) -> (ansi: String)
    ensures
        ansi@ == motd_ansi(text@),
{
    let s = chars_of(text);
    let n = s.len();
    let mut out: Vec<char> = Vec::new();
    let mut i: usize = 0;
    assert(s@.skip(0) =~= s@);
    while i < n
        invariant
            i <= n,
            n == s@.len(),
            s@ == text@,
            out@ + motd_ansi(s@.skip(i as int)) == motd_ansi(text@),
        decreases n - i,
    {
        let ghost before = out@;
        proof {
            lemma_skip_step(s@, i as int);
        }
        let c = s[i];
        if c != '\u{a7}' {
            out.push(c);
            assert(out@ + motd_ansi(s@.skip(i + 1)) =~= before + motd_ansi(s@.skip(i as int)));
            i = i + 1;
        } else if i + 1 == n {
            i = n;
        } else {
            proof {
                lemma_skip_two(s@, i as int);
            }
            let code = to_ascii_lower(s[i + 1]);
            match ansi_escape(code) {
                Some(esc) => {
                    push_str(&mut out, esc);
                    assert(out@ + motd_ansi(s@.skip(i + 2)) =~= before + motd_ansi(
                        s@.skip(i as int),
                    ));
                },
                None => {},
            }
            i = i + 2;
        }
    }
    assert(s@.skip(n as int).len() == 0);
    assert(out@ =~= motd_ansi(text@));
    string_from_chars(&out)
}

/// `s` with every `§` and the character that follows it removed (a trailing
/// lone `§` is removed too).
pub open spec fn without_codes(s: Seq<char>) -> Seq<char>
    decreases s.len(),
{
    if s.len() == 0 {
        Seq::empty()
    } else if is_section_sign(s[0]) {
        if s.len() == 1 {
            Seq::empty()
        } else {
            without_codes(s.subrange(2, s.len() as int))
        }
    } else {
        seq![s[0]] + without_codes(s.drop_first())
    }
}

/// Appends the words of `s` to `out`, one space between words; `gap` says
/// that white space separates the next word from what `out` already holds.
pub open spec fn squeeze(s: Seq<char>, out: Seq<char>, gap: bool) -> Seq<char>
    decreases s.len(),
{
    if s.len() == 0 {
        out
    } else if is_white_space(s[0]) {
        squeeze(s.drop_first(), out, out.len() > 0)
    } else {
        let out2 = if gap { out.push(' ') } else { out };
        squeeze(s.drop_first(), out2.push(s[0]), false)
    }
}

/// The white-space-separated words of `s` joined by single spaces
/// (`split_whitespace` then `join(" ")`): runs collapsed, ends trimmed.
pub open spec fn collapse_white_space(s: Seq<char>) -> Seq<char> {
    squeeze(s, Seq::empty(), false)
}

/// Plain-text rendering of a MOTD: codes stripped, white space collapsed.
pub open spec fn motd_plain(s: Seq<char>) -> Seq<char> {
    collapse_white_space(without_codes(s))
}

/// Calls `rust_mc_status::strip_formatting`.
///
/// Trusted: its documentation says that it removes every `§` and the single
/// character that follows it, then collapses all remaining white-space runs
/// into single spaces and trims the result; its source does so with
/// `str::split_whitespace` (Unicode white space) and `join(" ")`.
#[verifier::external_body]
fn strip_formatting(raw: &str) -> (plain: String)
    ensures
        plain@ == motd_plain(raw@),
{
    rust_mc_status::strip_formatting(raw)
}

/// The four renderings of a MOTD.
pub struct MotdResponse {
    /// Codes stripped and white space collapsed.
    pub plain: String,
    /// Inline-styled HTML.
    pub html: String,
    /// The raw MOTD with its `§`-codes.
    pub minecraft: String,
    /// ANSI terminal escapes.
    pub ansi: String,
}

/// Builds the four renderings of a raw MOTD.
pub fn build_motd(raw: &str) -> (motd: MotdResponse)
    ensures
        motd.plain@ == motd_plain(raw@),
        motd.html@ == motd_html(raw@),
        motd.minecraft@ == raw@,
        motd.ansi@ == motd_ansi(raw@),
{
    MotdResponse {
        plain: strip_formatting(raw),
        html: mc_to_html(raw),
        minecraft: String::from_str(raw),
        ansi: mc_to_ansi(raw),
    }
}

/// Text without a `§` comes out of the HTML and ANSI conversions unchanged.
pub proof fn law_plain_text_passes_through(s: Seq<char>)
    requires
        has_no_code(s),
    ensures
        motd_html(s) == s,
        motd_ansi(s) == s,
        without_codes(s) == s,
    decreases s.len(),
{
    if s.len() > 0 {
        let t = s.drop_first();
        assert forall|i: int| 0 <= i < t.len() implies !is_section_sign(#[trigger] t[i]) by {
            assert(t[i] == s[i + 1]);
        }
        law_plain_text_passes_through(t);
        assert(!is_section_sign(s[0]));
        assert(seq![s[0]] + t =~= s);
    }
}

/// No `§` in `s`.
pub open spec fn has_no_code(s: Seq<char>) -> bool {
    forall|i: int| 0 <= i < s.len() ==> !is_section_sign(#[trigger] s[i])
}

/// `s` is trimmed, its only white space is `' '`, and no two spaces follow
/// each other.
pub open spec fn is_collapsed(s: Seq<char>) -> bool {
    &&& forall|i: int| 0 <= i < s.len() && is_white_space(#[trigger] s[i]) ==> s[i] == ' '
    &&& s.len() > 0 ==> s[0] != ' ' && s.last() != ' '
    &&& forall|i: int| 0 <= i < s.len() - 1 ==> !(#[trigger] s[i] == ' ' && s[i + 1] == ' ')
}

proof fn lemma_without_codes_has_no_code(s: Seq<char>)
    ensures
        has_no_code(without_codes(s)),
    decreases s.len(),
{
    if s.len() > 0 {
        if is_section_sign(s[0]) {
            if s.len() > 1 {
                lemma_without_codes_has_no_code(s.subrange(2, s.len() as int));
            }
        } else {
            let rest = without_codes(s.drop_first());
            lemma_without_codes_has_no_code(s.drop_first());
            let r = seq![s[0]] + rest;
            assert forall|i: int| 0 <= i < r.len() implies !is_section_sign(#[trigger] r[i]) by {
                if i > 0 {
                    assert(r[i] == rest[i - 1]);
                }
            }
        }
    }
}

proof fn lemma_squeeze_collapsed(s: Seq<char>, out: Seq<char>, gap: bool)
    requires
        is_collapsed(out),
        has_no_code(out),
        has_no_code(s),
        gap ==> out.len() > 0,
    ensures
        is_collapsed(squeeze(s, out, gap)),
        has_no_code(squeeze(s, out, gap)),
    decreases s.len(),
{
    if s.len() > 0 {
        let rest = s.drop_first();
        assert forall|i: int| 0 <= i < rest.len() implies !is_section_sign(#[trigger] rest[i]) by {
            assert(rest[i] == s[i + 1]);
        }
        if is_white_space(s[0]) {
            lemma_squeeze_collapsed(rest, out, out.len() > 0);
        } else {
            let c = s[0];
            assert(!is_section_sign(c));
            let out2 = if gap { out.push(' ') } else { out };
            let next = out2.push(c);
            assert(c != ' ');
            assert forall|i: int| 0 <= i < next.len() && is_white_space(#[trigger] next[i]) implies next[i]
                == ' ' by {
                if i < out.len() {
                    assert(next[i] == out[i]);
                }
            }
            assert forall|i: int| 0 <= i < next.len() - 1 implies !(#[trigger] next[i] == ' ' && next[i
                + 1] == ' ') by {
                if i + 1 < out.len() {
                    assert(next[i] == out[i] && next[i + 1] == out[i + 1]);
                } else if i + 1 == out.len() {
                    assert(next[i] == out.last());
                }
            }
            assert forall|i: int| 0 <= i < next.len() implies !is_section_sign(#[trigger] next[i]) by {
                if i < out.len() {
                    assert(next[i] == out[i]);
                }
            }
            if out.len() == 0 {
                assert(next[0] == c);
            } else {
                assert(next[0] == out[0]);
            }
            lemma_squeeze_collapsed(rest, next, false);
        }
    }
}

/// The plain rendering of any MOTD holds no formatting code, is trimmed,
/// and separates its words by single spaces.
pub proof fn law_plain_motd_is_clean(s: Seq<char>)
    ensures
        has_no_code(motd_plain(s)),
        is_collapsed(motd_plain(s)),
{
    lemma_without_codes_has_no_code(s);
    lemma_squeeze_collapsed(without_codes(s), Seq::empty(), false);
}

/// The text of HTML `h`: every tag, from `<` to the next `>`, removed;
/// `in_tag` says that `h` starts inside a tag.
pub open spec fn untagged(h: Seq<char>, in_tag: bool) -> Seq<char>
    decreases h.len(),
{
    if h.len() == 0 {
        Seq::empty()
    } else if in_tag {
        untagged(h.drop_first(), h[0] != '>')
    } else if h[0] == '<' {
        untagged(h.drop_first(), true)
    } else {
        seq![h[0]] + untagged(h.drop_first(), false)
    }
}

/// Whether the end of `h` lies inside a tag.
pub open spec fn ends_in_tag(h: Seq<char>, in_tag: bool) -> bool
    decreases h.len(),
{
    if h.len() == 0 {
        in_tag
    } else if in_tag {
        ends_in_tag(h.drop_first(), h[0] != '>')
    } else {
        ends_in_tag(h.drop_first(), h[0] == '<')
    }
}

/// No angle bracket in `s`.
pub open spec fn has_no_bracket(s: Seq<char>) -> bool {
    forall|i: int| 0 <= i < s.len() ==> #[trigger] s[i] != '<' && s[i] != '>'
}

proof fn lemma_untagged_concat(a: Seq<char>, b: Seq<char>, t: bool)
    ensures
        untagged(a + b, t) == untagged(a, t) + untagged(b, ends_in_tag(a, t)),
    decreases a.len(),
{
    if a.len() > 0 {
        assert((a + b).drop_first() =~= a.drop_first() + b);
        assert((a + b)[0] == a[0]);
        let t2 = if t { a[0] != '>' } else { a[0] == '<' };
        lemma_untagged_concat(a.drop_first(), b, t2);
        if !t && a[0] != '<' {
            assert(seq![a[0]] + (untagged(a.drop_first(), false) + untagged(
                b,
                ends_in_tag(a.drop_first(), false),
            )) =~= seq![a[0]] + untagged(a.drop_first(), false) + untagged(
                b,
                ends_in_tag(a.drop_first(), false),
            ));
        }
    } else {
        assert(a + b =~= b);
    }
}

proof fn lemma_inside_tag(x: Seq<char>)
    requires
        has_no_bracket(x),
    ensures
        untagged(x, true) == Seq::<char>::empty(),
        ends_in_tag(x, true),
    decreases x.len(),
{
    if x.len() > 0 {
        let r = x.drop_first();
        assert(x[0] != '>');
        assert forall|i: int| 0 <= i < r.len() implies #[trigger] r[i] != '<' && r[i] != '>' by {
            assert(r[i] == x[i + 1]);
        }
        lemma_inside_tag(r);
    }
}

/// A tag `<` + `body` + `>` whose body holds no bracket has no text and
/// ends outside a tag.
proof fn lemma_tag(body: Seq<char>)
    requires
        has_no_bracket(body),
    ensures
        untagged(seq!['<'] + body + seq!['>'], false) == Seq::<char>::empty(),
        !ends_in_tag(seq!['<'] + body + seq!['>'], false),
{
    let h = seq!['<'] + body + seq!['>'];
    lemma_untagged_concat(seq!['<'] + body, seq!['>'], false);
    lemma_untagged_concat(seq!['<'], body, false);
    lemma_inside_tag(body);
    assert(untagged(seq!['<'], false) =~= Seq::<char>::empty()) by {
        assert(seq!['<'].drop_first() =~= Seq::<char>::empty());
        reveal_with_fuel(untagged, 2);
    }
    assert(ends_in_tag(seq!['<'], false)) by {
        assert(seq!['<'].drop_first() =~= Seq::<char>::empty());
        reveal_with_fuel(ends_in_tag, 2);
    }
    assert(untagged(seq!['>'], true) =~= Seq::<char>::empty()) by {
        assert(seq!['>'].drop_first() =~= Seq::<char>::empty());
        reveal_with_fuel(untagged, 2);
    }
    assert(!ends_in_tag(seq!['>'], true)) by {
        assert(seq!['>'].drop_first() =~= Seq::<char>::empty());
        reveal_with_fuel(ends_in_tag, 2);
    }
    lemma_ends_concat(seq!['<'] + body, seq!['>'], false);
    lemma_ends_concat(seq!['<'], body, false);
}

proof fn lemma_ends_concat(a: Seq<char>, b: Seq<char>, t: bool)
    ensures
        ends_in_tag(a + b, t) == ends_in_tag(b, ends_in_tag(a, t)),
    decreases a.len(),
{
    if a.len() > 0 {
        assert((a + b).drop_first() =~= a.drop_first() + b);
        let t2 = if t { a[0] != '>' } else { a[0] == '<' };
        lemma_ends_concat(a.drop_first(), b, t2);
    } else {
        assert(a + b =~= b);
    }
}

proof fn lemma_style_has_no_bracket(code: char)
    requires
        html_style(code) is Some,
    ensures
        has_no_bracket(html_style(code)->0),
{
    reveal_strlit("color:");
    reveal_strlit("#000000");
    reveal_strlit("#0000AA");
    reveal_strlit("#00AA00");
    reveal_strlit("#00AAAA");
    reveal_strlit("#AA0000");
    reveal_strlit("#AA00AA");
    reveal_strlit("#FFAA00");
    reveal_strlit("#AAAAAA");
    reveal_strlit("#555555");
    reveal_strlit("#5555FF");
    reveal_strlit("#55FF55");
    reveal_strlit("#55FFFF");
    reveal_strlit("#FF5555");
    reveal_strlit("#FF55FF");
    reveal_strlit("#FFFF55");
    reveal_strlit("#FFFFFF");
    reveal_strlit("font-weight:bold");
    reveal_strlit("font-style:italic");
    reveal_strlit("text-decoration:underline");
    reveal_strlit("text-decoration:line-through");
}

/// An opening or closing span tag has no text and ends outside a tag.
proof fn lemma_span_tags(style: Seq<char>)
    requires
        has_no_bracket(style),
    ensures
        untagged(span_open(style), false) == Seq::<char>::empty(),
        !ends_in_tag(span_open(style), false),
        untagged("</span>"@, false) == Seq::<char>::empty(),
        !ends_in_tag("</span>"@, false),
{
    reveal_strlit("<span style=\"");
    reveal_strlit("\">");
    reveal_strlit("</span>");
    let body = seq!['s', 'p', 'a', 'n', ' ', 's', 't', 'y', 'l', 'e', '=', '"'] + style + seq!['"'];
    assert(span_open(style) =~= seq!['<'] + body + seq!['>']);
    assert(has_no_bracket(body)) by {
        assert forall|i: int| 0 <= i < body.len() implies #[trigger] body[i] != '<' && body[i] != '>' by {
            if 12 <= i < 12 + style.len() {
                assert(body[i] == style[i - 12]);
            }
        }
    }
    lemma_tag(body);
    let close = seq!['/', 's', 'p', 'a', 'n'];
    assert("</span>"@ =~= seq!['<'] + close + seq!['>']);
    lemma_tag(close);
}

/// Removing the tags from the HTML rendering of a MOTD without angle
/// brackets gives back the MOTD without its codes: the conversion neither
/// loses nor adds text.
pub proof fn law_html_keeps_the_text(s: Seq<char>, open: bool)
    requires
        has_no_bracket(s),
    ensures
        untagged(html_from(s, open), false) == without_codes(s),
    decreases s.len(),
{
    lemma_span_tags(Seq::empty());
    let close = span_close_if(open);
    assert(untagged(close, false) == Seq::<char>::empty() && !ends_in_tag(close, false)) by {
        if !open {
            assert(close =~= Seq::<char>::empty());
        }
    }
    if s.len() == 0 {
    } else if !is_section_sign(s[0]) {
        let r = s.drop_first();
        assert forall|i: int| 0 <= i < r.len() implies #[trigger] r[i] != '<' && r[i] != '>' by {
            assert(r[i] == s[i + 1]);
        }
        law_html_keeps_the_text(r, open);
        assert(s[0] != '<');
        let h = html_from(r, open);
        assert((seq![s[0]] + h).drop_first() =~= h);
    } else if s.len() == 1 {
    } else {
        let code = ascii_lower(s[1]);
        let rest = s.subrange(2, s.len() as int);
        assert forall|i: int| 0 <= i < rest.len() implies #[trigger] rest[i] != '<' && rest[i] != '>' by {
            assert(rest[i] == s[i + 2]);
        }
        if code == 'r' {
            law_html_keeps_the_text(rest, false);
            lemma_untagged_concat(close, html_from(rest, false), false);
        } else {
            match html_style(code) {
                Some(style) => {
                    lemma_style_has_no_bracket(code);
                    lemma_span_tags(style);
                    law_html_keeps_the_text(rest, true);
                    let tags = close + span_open(style);
                    lemma_untagged_concat(close, span_open(style), false);
                    lemma_ends_concat(close, span_open(style), false);
                    lemma_untagged_concat(tags, html_from(rest, true), false);
                    assert(untagged(tags, false) =~= Seq::<char>::empty());
                },
                None => {
                    law_html_keeps_the_text(rest, open);
                },
            }
        }
    }
}

/// The text of an ANSI-escaped string `t`: every escape, from `ESC` to the
/// next `m`, removed; `in_escape` says that `t` starts inside an escape.
pub open spec fn unescaped(t: Seq<char>, in_escape: bool) -> Seq<char>
    decreases t.len(),
{
    if t.len() == 0 {
        Seq::empty()
    } else if in_escape {
        unescaped(t.drop_first(), t[0] != 'm')
    } else if t[0] == '\x1b' {
        unescaped(t.drop_first(), true)
    } else {
        seq![t[0]] + unescaped(t.drop_first(), false)
    }
}

/// Whether the end of `t` lies inside an escape.
pub open spec fn ends_in_escape(t: Seq<char>, in_escape: bool) -> bool
    decreases t.len(),
{
    if t.len() == 0 {
        in_escape
    } else if in_escape {
        ends_in_escape(t.drop_first(), t[0] != 'm')
    } else {
        ends_in_escape(t.drop_first(), t[0] == '\x1b')
    }
}

/// No escape character in `s`.
pub open spec fn has_no_escape(s: Seq<char>) -> bool {
    forall|i: int| 0 <= i < s.len() ==> #[trigger] s[i] != '\x1b'
}

proof fn lemma_unescaped_concat(a: Seq<char>, b: Seq<char>, t: bool)
    ensures
        unescaped(a + b, t) == unescaped(a, t) + unescaped(b, ends_in_escape(a, t)),
        ends_in_escape(a + b, t) == ends_in_escape(b, ends_in_escape(a, t)),
    decreases a.len(),
{
    if a.len() > 0 {
        assert((a + b).drop_first() =~= a.drop_first() + b);
        assert((a + b)[0] == a[0]);
        let t2 = if t { a[0] != 'm' } else { a[0] == '\x1b' };
        lemma_unescaped_concat(a.drop_first(), b, t2);
        if !t && a[0] != '\x1b' {
            assert(seq![a[0]] + (unescaped(a.drop_first(), false) + unescaped(
                b,
                ends_in_escape(a.drop_first(), false),
            )) =~= seq![a[0]] + unescaped(a.drop_first(), false) + unescaped(
                b,
                ends_in_escape(a.drop_first(), false),
            ));
        }
    } else {
        assert(a + b =~= b);
    }
}

proof fn lemma_inside_escape(x: Seq<char>)
    requires
        forall|i: int| 0 <= i < x.len() ==> #[trigger] x[i] != 'm',
    ensures
        unescaped(x, true) == Seq::<char>::empty(),
        ends_in_escape(x, true),
    decreases x.len(),
{
    if x.len() > 0 {
        let r = x.drop_first();
        assert(x[0] != 'm');
        assert forall|i: int| 0 <= i < r.len() implies #[trigger] r[i] != 'm' by {
            assert(r[i] == x[i + 1]);
        }
        lemma_inside_escape(r);
    }
}

/// Every escape that a code emits is `ESC`, a body without `m`, and `m`.
proof fn lemma_escape_shape(code: char)
    requires
        ansi_code(code) is Some,
    ensures
        ({
            let e = ansi_code(code)->0;
            &&& e.len() >= 2
            &&& e[0] == '\x1b'
            &&& e.last() == 'm'
            &&& forall|i: int| 1 <= i < e.len() - 1 ==> #[trigger] e[i] != 'm'
        }),
{
    reveal_strlit("\x1b[0m");
    reveal_strlit("\x1b[30m");
    reveal_strlit("\x1b[34m");
    reveal_strlit("\x1b[32m");
    reveal_strlit("\x1b[36m");
    reveal_strlit("\x1b[31m");
    reveal_strlit("\x1b[35m");
    reveal_strlit("\x1b[33m");
    reveal_strlit("\x1b[37m");
    reveal_strlit("\x1b[90m");
    reveal_strlit("\x1b[94m");
    reveal_strlit("\x1b[92m");
    reveal_strlit("\x1b[96m");
    reveal_strlit("\x1b[91m");
    reveal_strlit("\x1b[95m");
    reveal_strlit("\x1b[93m");
    reveal_strlit("\x1b[97m");
    reveal_strlit("\x1b[1m");
    reveal_strlit("\x1b[3m");
    reveal_strlit("\x1b[4m");
    reveal_strlit("\x1b[9m");
}

proof fn lemma_escape_has_no_text(code: char)
    requires
        ansi_code(code) is Some,
    ensures
        unescaped(ansi_code(code)->0, false) == Seq::<char>::empty(),
        !ends_in_escape(ansi_code(code)->0, false),
{
    lemma_escape_shape(code);
    let e = ansi_code(code)->0;
    let body = e.subrange(1, e.len() - 1);
    assert(e =~= seq!['\x1b'] + body + seq!['m']);
    assert forall|i: int| 0 <= i < body.len() implies #[trigger] body[i] != 'm' by {
        assert(body[i] == e[i + 1]);
    }
    lemma_inside_escape(body);
    lemma_unescaped_concat(seq!['\x1b'] + body, seq!['m'], false);
    lemma_unescaped_concat(seq!['\x1b'], body, false);
    assert(unescaped(seq!['\x1b'], false) =~= Seq::<char>::empty()) by {
        assert(seq!['\x1b'].drop_first() =~= Seq::<char>::empty());
        reveal_with_fuel(unescaped, 2);
    }
    assert(ends_in_escape(seq!['\x1b'], false)) by {
        assert(seq!['\x1b'].drop_first() =~= Seq::<char>::empty());
        reveal_with_fuel(ends_in_escape, 2);
    }
    assert(unescaped(seq!['m'], true) =~= Seq::<char>::empty()) by {
        assert(seq!['m'].drop_first() =~= Seq::<char>::empty());
        reveal_with_fuel(unescaped, 2);
    }
    assert(!ends_in_escape(seq!['m'], true)) by {
        assert(seq!['m'].drop_first() =~= Seq::<char>::empty());
        reveal_with_fuel(ends_in_escape, 2);
    }
}

/// Removing the escapes from the ANSI rendering of a MOTD without escape
/// characters gives back the MOTD without its codes.
pub proof fn law_ansi_keeps_the_text(s: Seq<char>)
    requires
        has_no_escape(s),
    ensures
        unescaped(motd_ansi(s), false) == without_codes(s),
    decreases s.len(),
{
    if s.len() == 0 {
    } else if !is_section_sign(s[0]) {
        let r = s.drop_first();
        assert forall|i: int| 0 <= i < r.len() implies #[trigger] r[i] != '\x1b' by {
            assert(r[i] == s[i + 1]);
        }
        law_ansi_keeps_the_text(r);
        assert(s[0] != '\x1b');
        let t = motd_ansi(r);
        assert((seq![s[0]] + t).drop_first() =~= t);
    } else if s.len() == 1 {
    } else {
        let rest = s.subrange(2, s.len() as int);
        assert forall|i: int| 0 <= i < rest.len() implies #[trigger] rest[i] != '\x1b' by {
            assert(rest[i] == s[i + 2]);
        }
        law_ansi_keeps_the_text(rest);
        let code = ascii_lower(s[1]);
        if ansi_code(code) is Some {
            lemma_escape_has_no_text(code);
            lemma_unescaped_concat(ansi_code(code)->0, motd_ansi(rest), false);
            assert(Seq::<char>::empty() + without_codes(rest) =~= without_codes(rest));
        }
    }
}

} // verus!
