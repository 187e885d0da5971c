use minerstatus::motd::{build_motd, mc_color_hex, to_ascii_lower};
use minerstatus::status::{mc_to_ansi, mc_to_html};

#[test]
fn html_leaves_plain_text_alone() {
    assert_eq!(mc_to_html("Hello, world"), "Hello, world");
    assert_eq!(mc_to_html(""), "");
}

#[test]
fn html_drops_unknown_codes() {
    assert_eq!(mc_to_html("§kSecret §zend"), "Secret end");
}

#[test]
fn html_trailing_section_sign_ends_text() {
    assert_eq!(
        mc_to_html("§lBold§"),
        "<span style=\"font-weight:bold\">Bold</span>"
    );
}

#[test]
fn html_accepts_upper_case_codes() {
    assert_eq!(mc_to_html("§AUp"), "<span style=\"color:#55FF55\">Up</span>");
}

#[test]
fn html_reset_without_open_span_emits_nothing() {
    assert_eq!(mc_to_html("§rplain"), "plain");
}

#[test]
fn html_styles_italic_underline_strike() {
    assert_eq!(
        mc_to_html("§oI§nU§mS"),
        "<span style=\"font-style:italic\">I</span><span style=\"text-decoration:underline\">U</span><span style=\"text-decoration:line-through\">S</span>"
    );
}

#[test]
fn html_keeps_non_ascii_text() {
    assert_eq!(mc_to_html("§6Привет"), "<span style=\"color:#FFAA00\">Привет</span>");
}

#[test]
fn ansi_leaves_plain_text_alone() {
    assert_eq!(mc_to_ansi("Hello"), "Hello");
}

#[test]
fn ansi_drops_unknown_codes_and_lone_sign() {
    assert_eq!(mc_to_ansi("§kObf§"), "Obf");
}

#[test]
fn ansi_styles_and_upper_case() {
    assert_eq!(mc_to_ansi("§LBold§8Gray"), "\x1b[1mBold\x1b[90mGray");
}

#[test]
fn color_table() {
    assert_eq!(mc_color_hex('a'), Some("#55FF55"));
    assert_eq!(mc_color_hex('0'), Some("#000000"));
    assert_eq!(mc_color_hex('f'), Some("#FFFFFF"));
    assert_eq!(mc_color_hex('g'), None);
    assert_eq!(mc_color_hex('A'), None);
}

#[test]
fn ascii_lowering() {
    assert_eq!(to_ascii_lower('A'), 'a');
    assert_eq!(to_ascii_lower('Z'), 'z');
    assert_eq!(to_ascii_lower('a'), 'a');
    assert_eq!(to_ascii_lower('§'), '§');
}

#[test]
fn motd_renderings() {
    let m = build_motd("§aA Minecraft Server");
    assert_eq!(m.plain, "A Minecraft Server");
    assert_eq!(m.html, "<span style=\"color:#55FF55\">A Minecraft Server</span>");
    assert_eq!(m.minecraft, "§aA Minecraft Server");
    assert_eq!(m.ansi, "\x1b[92mA Minecraft Server");
}

#[test]
fn plain_motd_collapses_white_space() {
    let raw = "§f  §aHypixel Network §c[1.8/1.21]\n§b§lEASTER EVENT";
    assert_eq!(build_motd(raw).plain, "Hypixel Network [1.8/1.21] EASTER EVENT");
    assert_eq!(build_motd("§a§b§l").plain, "");
    assert_eq!(build_motd("  Hello \t World  ").plain, "Hello World");
}

fn strip_between(s: &str, open: char, close: char) -> String {
    let mut out = String::new();
    let mut inside = false;
    for c in s.chars() {
        if inside {
            inside = c != close;
        } else if c == open {
            inside = true;
        } else {
            out.push(c);
        }
    }
    out
}

#[test]
fn html_keeps_the_text() {
    let raw = "§aGreen §lBold§r §kplain §x end§";
    assert_eq!(strip_between(&mc_to_html(raw), '<', '>'), "Green Bold plain  end");
}

#[test]
fn ansi_keeps_the_text() {
    let raw = "§aGreen §lBold§r §kplain §x end§";
    assert_eq!(strip_between(&mc_to_ansi(raw), '\x1b', 'm'), "Green Bold plain  end");
}

#[test]
fn plain_motd_is_clean() {
    let p = build_motd("\n §a  two\t\twords §§ and §lmore  \u{3000}").plain;
    assert_eq!(p, "two words and more");
    assert!(!p.contains('§'));
    assert!(!p.contains("  "));
}
