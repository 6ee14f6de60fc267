use legacy_motd::DecodeError;
use legacy_motd::Rendered;
use legacy_motd::Server;
use legacy_motd::StyledRun;
use legacy_motd::decode;
use legacy_motd::render;

fn bare_run(text: &str) -> StyledRun {
    StyledRun {
        text: String::from(text),
        color: None,
        bold: None,
        italic: None,
        underlined: None,
        strikethrough: None,
        obfuscated: None,
    }
}

fn assert_default_style(run: &StyledRun) {
    assert_eq!(run.color.as_deref(), Some("white"));
    assert_eq!(run.bold, None);
    assert_eq!(run.italic, None);
    assert_eq!(run.underlined, None);
    assert_eq!(run.strikethrough, None);
    assert_eq!(run.obfuscated, None);
}

#[test]
fn no_marker_single_run() {
    let runs = decode("hello world").unwrap();
    assert_eq!(runs.len(), 1);
    assert_eq!(runs[0].text, "hello world");
    assert_default_style(&runs[0]);
}

#[test]
fn empty_input_single_empty_run() {
    let runs = decode("").unwrap();
    assert_eq!(runs.len(), 1);
    assert_eq!(runs[0].text, "");
    assert_default_style(&runs[0]);
}

#[test]
fn plain_rendering_strips_markers() {
    let runs = decode("\u{a7}cRed\n\u{a7}lBoldRed").unwrap();
    let r: Rendered = render(&runs);
    assert_eq!(r.plain, "Red\nBoldRed");
}

#[test]
fn texts_concat_to_stripped_input() {
    let runs = decode("ab\u{a7}0cd\u{a7}ref\u{a7}lgh").unwrap();
    let joined: String = runs.iter().map(|r| r.text.as_str()).collect();
    assert_eq!(joined, "abcdefgh");
}

#[test]
fn reset_restores_default_state() {
    let runs = decode("\u{a7}l\u{a7}cX\u{a7}rY").unwrap();
    assert_eq!(runs.len(), 4);
    // Run before any code: default state.
    assert_eq!(runs[0].text, "");
    assert_default_style(&runs[0]);
    // After the bold code: bold set, color still white.
    assert_eq!(runs[1].text, "");
    assert_eq!(runs[1].bold, Some(true));
    assert_eq!(runs[1].color.as_deref(), Some("white"));
    // After the color code: bold carried forward, color red.
    assert_eq!(runs[2].text, "X");
    assert_eq!(runs[2].bold, Some(true));
    assert_eq!(runs[2].color.as_deref(), Some("red"));
    // After the reset: everything back to the initial state.
    assert_eq!(runs[3].text, "Y");
    assert_default_style(&runs[3]);
}

#[test]
fn style_code_at_end_emits_styled_run() {
    let runs = decode("ab\u{a7}l").unwrap();
    assert_eq!(runs.len(), 2);
    assert_eq!(runs[0].text, "ab");
    assert_default_style(&runs[0]);
    assert_eq!(runs[1].text, "");
    assert_eq!(runs[1].bold, Some(true));
    assert_eq!(runs[1].color.as_deref(), Some("white"));
}

#[test]
fn marker_and_code_alone_yield_two_empty_runs() {
    let runs = decode("\u{a7}c").unwrap();
    assert_eq!(runs.len(), 2);
    assert_eq!(runs[0].text, "");
    assert_default_style(&runs[0]);
    assert_eq!(runs[1].text, "");
    assert_eq!(runs[1].color.as_deref(), Some("red"));
    assert_eq!(runs[1].bold, None);
}

#[test]
fn unknown_code_is_an_error() {
    assert_eq!(decode("\u{a7}z").unwrap_err(), DecodeError::UnknownFormatCode('z'));
}

#[test]
fn unknown_code_reports_the_offending_character() {
    assert_eq!(
        decode("ok\u{a7}qrest").unwrap_err(),
        DecodeError::UnknownFormatCode('q')
    );
    assert_eq!(
        decode("\u{a7}\u{a7}").unwrap_err(),
        DecodeError::UnknownFormatCode('\u{a7}')
    );
}

#[test]
fn dangling_marker_is_an_error() {
    assert_eq!(decode("text\u{a7}").unwrap_err(), DecodeError::TruncatedFormatCode);
    assert_eq!(decode("\u{a7}").unwrap_err(), DecodeError::TruncatedFormatCode);
}

#[test]
fn example_red_then_bold_red() {
    let runs = decode("\u{a7}cRed\n\u{a7}lBoldRed").unwrap();
    assert_eq!(runs.len(), 3);
    assert_eq!(runs[0].text, "");
    assert_eq!(runs[0].color.as_deref(), Some("white"));
    assert_eq!(runs[1].text, "Red\n");
    assert_eq!(runs[1].color.as_deref(), Some("red"));
    assert_eq!(runs[1].bold, None);
    assert_eq!(runs[2].text, "BoldRed");
    assert_eq!(runs[2].color.as_deref(), Some("red"));
    assert_eq!(runs[2].bold, Some(true));
    let r = render(&runs);
    let mut expected = String::new();
    expected.push_str("<span style=\"color: #ffffff;\"></span>");
    expected.push_str("<span style=\"color: #ff5555;\">Red<br></span>");
    expected.push_str("<span style=\"color: #ff5555;\"><span style=\"font-weight: bold;\">BoldRed</span></span>");
    assert_eq!(r.html, expected);
    assert_eq!(r.plain, "Red\nBoldRed");
}

#[test]
fn all_sixteen_color_codes_map_to_their_names() {
    let table = [
        ('0', "black"),
        ('1', "dark_blue"),
        ('2', "dark_green"),
        ('3', "dark_aqua"),
        ('4', "dark_red"),
        ('5', "dark_purple"),
        ('6', "gold"),
        ('7', "gray"),
        ('8', "dark_gray"),
        ('9', "blue"),
        ('a', "green"),
        ('b', "aqua"),
        ('c', "red"),
        ('d', "light_purple"),
        ('e', "yellow"),
        ('f', "white"),
    ];
    for (code, name) in table {
        let input = format!("\u{a7}{}x", code);
        let runs = decode(&input).unwrap();
        assert_eq!(runs.len(), 2);
        assert_eq!(runs[1].text, "x");
        assert_eq!(runs[1].color.as_deref(), Some(name));
    }
}

#[test]
fn fixed_color_names_resolve_to_hex() {
    let table = [
        ("black", "#000000"),
        ("dark_blue", "#0000aa"),
        ("dark_green", "#00aa00"),
        ("dark_aqua", "#00aaaa"),
        ("dark_red", "#aa0000"),
        ("dark_purple", "#aa00aa"),
        ("gold", "#ffaa00"),
        ("gray", "#aaaaaa"),
        ("dark_gray", "#555555"),
        ("blue", "#5555ff"),
        ("green", "#55ff55"),
        ("aqua", "#55ffff"),
        ("red", "#ff5555"),
        ("light_purple", "#ff55ff"),
        ("yellow", "#ffff55"),
        ("white", "#ffffff"),
    ];
    for (name, hex) in table {
        let mut run = bare_run("x");
        run.color = Some(String::from(name));
        let r = render(&vec![run]);
        assert_eq!(r.html, format!("<span style=\"color: {};\">x</span>", hex));
    }
}

#[test]
fn unregistered_color_passes_through_verbatim() {
    let mut run = bare_run("x");
    run.color = Some(String::from("#123456"));
    let r = render(&vec![run]);
    assert_eq!(r.html, "<span style=\"color: #123456;\">x</span>");
}

#[test]
fn escaping_is_minimal() {
    let run = bare_run("a <b>\n&\"q\"");
    let r = render(&vec![run]);
    assert_eq!(r.html, "a&nbsp;&lt;b&gt;<br>&\"q\"");
    assert_eq!(r.plain, "a <b>\n&\"q\"");
}

#[test]
fn each_style_code_sets_its_flag() {
    let runs = decode("\u{a7}kX").unwrap();
    assert_eq!(runs[1].obfuscated, Some(true));
    let runs = decode("\u{a7}mX").unwrap();
    assert_eq!(runs[1].strikethrough, Some(true));
    let runs = decode("\u{a7}nX").unwrap();
    assert_eq!(runs[1].underlined, Some(true));
    let runs = decode("\u{a7}oX").unwrap();
    assert_eq!(runs[1].italic, Some(true));
}

#[test]
fn obfuscated_has_no_rendering() {
    let mut run = bare_run("X");
    run.obfuscated = Some(true);
    let r = render(&vec![run]);
    assert_eq!(r.html, "X");
}

#[test]
fn explicit_false_flags_render_nothing() {
    let mut run = bare_run("x");
    run.bold = Some(false);
    run.italic = Some(false);
    let r = render(&vec![run]);
    assert_eq!(r.html, "x");
}

#[test]
fn tags_open_in_fixed_order_and_nest_well() {
    let mut run = bare_run("x");
    run.color = Some(String::from("red"));
    run.bold = Some(true);
    run.italic = Some(true);
    run.underlined = Some(true);
    run.strikethrough = Some(true);
    run.obfuscated = Some(true);
    let r = render(&vec![run]);
    let mut expected = String::new();
    expected.push_str("<span style=\"color: #ff5555;\">");
    expected.push_str("<span style=\"font-weight: bold;\">");
    expected.push_str("<span style=\"font-style: italic;\">");
    expected.push_str("<span style=\"text-decoration: underline;\">");
    expected.push_str("<span style=\"text-decoration: line-through;\">");
    expected.push_str("x");
    expected.push_str("</span></span></span></span></span>");
    assert_eq!(r.html, expected);
}

#[test]
fn adjacent_equal_runs_are_not_merged() {
    let runs = decode("\u{a7}c\u{a7}c").unwrap();
    assert_eq!(runs.len(), 3);
    let r = render(&runs);
    let mut expected = String::new();
    expected.push_str("<span style=\"color: #ffffff;\"></span>");
    expected.push_str("<span style=\"color: #ff5555;\"></span>");
    expected.push_str("<span style=\"color: #ff5555;\"></span>");
    assert_eq!(r.html, expected);
}

#[test]
fn server_processes_legacy_motd() {
    let mut server = Server {
        address: String::from("localhost"),
        port: Some(25565),
        clean_motd: String::new(),
        html_motd: String::new(),
    };
    assert_eq!(server.process_legacy_motd("\u{a7}cHi"), Ok(()));
    assert_eq!(server.clean_motd, "Hi");
    assert_eq!(
        server.html_motd,
        "<span style=\"color: #ffffff;\"></span><span style=\"color: #ff5555;\">Hi</span>"
    );
}

#[test]
fn server_left_unchanged_on_malformed_motd() {
    let mut server = Server {
        address: String::from("localhost"),
        port: None,
        clean_motd: String::from("old"),
        html_motd: String::from("old html"),
    };
    assert_eq!(
        server.process_legacy_motd("bad\u{a7}"),
        Err(DecodeError::TruncatedFormatCode)
    );
    assert_eq!(server.clean_motd, "old");
    assert_eq!(server.html_motd, "old html");
    assert_eq!(
        server.process_legacy_motd("\u{a7}\u{2603}"),
        Err(DecodeError::UnknownFormatCode('\u{2603}'))
    );
    assert_eq!(server.clean_motd, "old");
    assert_eq!(server.html_motd, "old html");
}

#[test]
fn server_processes_structured_components() {
    let mut server = Server {
        address: String::from("localhost"),
        port: Some(25565),
        clean_motd: String::new(),
        html_motd: String::new(),
    };
    let mut first = bare_run("A ");
    first.color = Some(String::from("gold"));
    let mut second = bare_run("server");
    second.bold = Some(true);
    server.process_motd(&vec![first, second]);
    assert_eq!(server.clean_motd, "A server");
    let mut expected = String::new();
    expected.push_str("<span style=\"color: #ffaa00;\">A&nbsp;</span>");
    expected.push_str("<span style=\"font-weight: bold;\">server</span>");
    assert_eq!(server.html_motd, expected);
}

#[test]
fn srv_lookup_name_prefixes_service_labels() {
    assert_eq!(
        legacy_motd::server::srv_lookup_name("example.com"),
        "_minecraft._tcp.example.com"
    );
}
