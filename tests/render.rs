use barfmt::dzen2::Dzen2Formatter;
use barfmt::i3bar::{parse_click, protocol_header, select_button, I3BarFormatter};
use barfmt::lemonbar::LemonbarFormatter;
use barfmt::markup::{Alignment, ClickAction, Format, Formatter, MouseButton};

fn text(s: &str) -> Format {
    Format::Str(s.to_string())
}

fn shell(b: MouseButton, cmd: &str) -> ClickAction {
    ClickAction::ShellCommand(b, cmd.to_string())
}

#[test]
fn dzen2_doubles_carets() {
    let mut f = Dzen2Formatter::new();
    assert_eq!(f.format(&text("a^b")), "a^^b");
}

#[test]
fn dzen2_leaves_unescaped_text() {
    let mut f = Dzen2Formatter::new();
    assert_eq!(f.format(&Format::UnescapedStr("a^b".to_string())), "a^b");
    assert_eq!(f.format(&Format::UnescapedStr("^fg(red)".to_string())), "^fg(red)");
}

#[test]
fn dzen2_colors() {
    let mut f = Dzen2Formatter::new();
    let fg = Format::FgColor("red".to_string(), Box::new(text("x")));
    assert_eq!(f.format(&fg), "^fg(red)x^fg()");
    let bg = Format::BgColor("#123456".to_string(), Box::new(text("y")));
    assert_eq!(f.format(&bg), "^bg(#123456)y^bg()");
}

#[test]
fn dzen2_clickable_and_dropped_features() {
    let mut f = Dzen2Formatter::new();
    let click = Format::Clickable(shell(MouseButton::Right, "echo a:b"), Box::new(text("x")));
    assert_eq!(f.format(&click), "^ca(3,echo a:b)x^ca()");
    let call = Format::Clickable(
        ClickAction::Function(MouseButton::Left, "cb".to_string()),
        Box::new(text("x")),
    );
    assert_eq!(f.format(&call), "x");
    let tree = Format::Concat(vec![
        Format::Align(Alignment::Right, Box::new(text("a"))),
        Format::NoSeparator(Box::new(text("b"))),
        Format::Padding(4, Box::new(text("c"))),
    ]);
    assert_eq!(f.format(&tree), "abc");
    assert_eq!(f.format(&Format::Concat(vec![])), "");
}

#[test]
fn lemonbar_escaping_switch() {
    let mut on = LemonbarFormatter::new();
    assert_eq!(on.format(&text("50%")), "50%%");
    let mut off = LemonbarFormatter::new_noescape();
    assert_eq!(off.format(&text("50%")), "50%");
    let mut dflt = LemonbarFormatter::default();
    assert_eq!(dflt.format(&text("%a%")), "%%a%%");
    assert_eq!(on.format(&Format::UnescapedStr("5%".to_string())), "5%");
}

#[test]
fn lemonbar_clickable_escapes_colons() {
    let mut f = LemonbarFormatter::new();
    let click = Format::Clickable(shell(MouseButton::Left, "echo a:b"), Box::new(text("x")));
    assert_eq!(f.format(&click), "%{A1:echo a\\:b:}x%{A}");
    let call = Format::Clickable(
        ClickAction::Function(MouseButton::Left, "cb".to_string()),
        Box::new(text("x")),
    );
    assert_eq!(f.format(&call), "x");
}

#[test]
fn lemonbar_regions_and_colors() {
    let mut f = LemonbarFormatter::new();
    let tree = Format::Concat(vec![
        Format::Align(Alignment::Left, Box::new(text("l"))),
        Format::Align(Alignment::Center, Box::new(text("c"))),
        Format::Align(
            Alignment::Right,
            Box::new(Format::FgColor(
                "#fff".to_string(),
                Box::new(Format::BgColor("#000".to_string(), Box::new(text("r")))),
            )),
        ),
        Format::Padding(3, Box::new(Format::NoSeparator(Box::new(text("!"))))),
    ]);
    assert_eq!(f.format(&tree), "%{l}l%{c}c%{r}%{F#fff}%{B#000}r%{B-}%{F-}!");
}

#[test]
fn markup_render_is_repeatable() {
    let tree = Format::Concat(vec![
        text("a%^"),
        Format::Clickable(shell(MouseButton::Middle, "x:y"), Box::new(text("b"))),
    ]);
    let mut d = Dzen2Formatter::new();
    assert_eq!(d.format(&tree), d.format(&tree));
    let mut l = LemonbarFormatter::new();
    assert_eq!(l.format(&tree), l.format(&tree));
    let mut j = I3BarFormatter::new();
    assert_eq!(j.format(&tree), j.format(&tree));
}

#[test]
fn i3bar_two_leaves_make_one_array() {
    let mut f = I3BarFormatter::new();
    let line = f.format_all(&[text("a"), Format::UnescapedStr("b".to_string())]);
    assert_eq!(line, "[{\"full_text\":\"a\"},{\"full_text\":\"b\"}],");
    assert!(!line.contains(",]"));
    assert!(line.ends_with("],"));
    assert!(!line.ends_with(",],"));
}

#[test]
fn i3bar_empty_sequence() {
    let mut f = I3BarFormatter::new();
    assert_eq!(f.format_all(&[]), "[],");
    assert_eq!(f.format_all(&[Format::Concat(vec![])]), "[],");
    assert_eq!(f.format(&Format::Concat(vec![])), "[],");
}

#[test]
fn i3bar_attributes_in_key_order() {
    let mut f = I3BarFormatter::new();
    let tree = Format::Align(
        Alignment::Center,
        Box::new(Format::FgColor(
            "#fff".to_string(),
            Box::new(Format::BgColor(
                "#000".to_string(),
                Box::new(Format::NoSeparator(Box::new(Format::Padding(25, Box::new(text("t")))))),
            )),
        )),
    );
    assert_eq!(
        f.format(&tree),
        "[{\"align\":\"center\",\"background\":\"#000\",\"color\":\"#fff\",\"full_text\":\"t\",\"separator\":false,\"separator_block_width\":25}],"
    );
}

#[test]
fn i3bar_siblings_do_not_share_attributes() {
    let mut f = I3BarFormatter::new();
    let tree = Format::FgColor(
        "red".to_string(),
        Box::new(Format::Concat(vec![
            Format::Align(Alignment::Left, Box::new(text("a"))),
            text("b"),
        ])),
    );
    assert_eq!(
        f.format(&tree),
        "[{\"align\":\"left\",\"color\":\"red\",\"full_text\":\"a\"},{\"color\":\"red\",\"full_text\":\"b\"}],"
    );
}

#[test]
fn i3bar_text_is_json_escaped() {
    let mut f = I3BarFormatter::new();
    assert_eq!(f.format(&text("say \"hi\"\n")), "[{\"full_text\":\"say \\\"hi\\\"\\n\"}],");
}

#[test]
fn i3bar_sibling_clicks_share_instance() {
    let mut f = I3BarFormatter::new();
    let act = shell(MouseButton::Left, "echo");
    let tree = Format::Concat(vec![
        Format::Clickable(act.clone(), Box::new(text("a"))),
        Format::Clickable(act.clone(), Box::new(text("b"))),
    ]);
    let line = f.format(&tree);
    assert_eq!(
        line,
        "[{\"full_text\":\"a\",\"instance\":\"shell:1:echo\"},{\"full_text\":\"b\",\"instance\":\"shell:1:echo\"}],"
    );
    assert_eq!(f.dispatch("shell:1:echo", 1).len(), 2);
}

#[test]
fn i3bar_nested_clicks_reuse_outer_instance() {
    let mut f = I3BarFormatter::new();
    let tree = Format::Clickable(
        shell(MouseButton::Left, "outer"),
        Box::new(Format::Clickable(
            ClickAction::Function(MouseButton::Right, "inner".to_string()),
            Box::new(text("x")),
        )),
    );
    let line = f.format(&tree);
    assert_eq!(line, "[{\"full_text\":\"x\",\"instance\":\"shell:1:outer\"}],");
    let left = f.dispatch("shell:1:outer", 1);
    assert_eq!(left.len(), 1);
    assert!(matches!(&left[0], ClickAction::ShellCommand(MouseButton::Left, c) if c == "outer"));
    let right = f.dispatch("shell:1:outer", 3);
    assert_eq!(right.len(), 1);
    assert!(matches!(&right[0], ClickAction::Function(MouseButton::Right, n) if n == "inner"));
    assert!(f.dispatch("function:3:inner", 3).is_empty());
}

#[test]
fn i3bar_render_clears_table() {
    let mut f = I3BarFormatter::new();
    let tree = Format::Clickable(shell(MouseButton::Left, "a"), Box::new(text("x")));
    f.format(&tree);
    assert_eq!(f.dispatch("shell:1:a", 1).len(), 1);
    f.format_all(&[text("y")]);
    assert!(f.dispatch("shell:1:a", 1).is_empty());
}

#[test]
fn i3bar_dispatch_by_button() {
    let mut f = I3BarFormatter::new();
    let tree = Format::Clickable(shell(MouseButton::Middle, "cmd"), Box::new(text("x")));
    f.format(&tree);
    let hit = f.handle_input_line("{\"name\":\"n\",\"instance\":\"shell:2:cmd\",\"button\":2,\"x\":5},");
    assert_eq!(hit.len(), 1);
    assert!(matches!(&hit[0], ClickAction::ShellCommand(MouseButton::Middle, c) if c == "cmd"));
    let miss = f.handle_input_line(",{\"instance\":\"shell:2:cmd\",\"button\":1}");
    assert!(miss.is_empty());
    assert!(f.handle_input_line("{\"instance\":\"other\",\"button\":2}").is_empty());
}

#[test]
fn i3bar_malformed_lines_are_ignored() {
    let mut f = I3BarFormatter::new();
    f.format(&Format::Clickable(shell(MouseButton::Left, "c"), Box::new(text("x"))));
    assert!(f.handle_input_line("[").is_empty());
    assert!(f.handle_input_line("not json").is_empty());
    assert!(f.handle_input_line("{\"instance\":\"shell:1:c\"}").is_empty());
    assert!(f.handle_input_line("{\"instance\":\"shell:1:c\",\"button\":257}").is_empty());
    assert!(f.handle_input_line("{\"instance\":5,\"button\":1}").is_empty());
    assert_eq!(f.handle_input_line("{\"instance\":\"shell:1:c\",\"button\":1}").len(), 1);
}

#[test]
fn click_parsing() {
    let c = parse_click(",,{\"instance\":\"abc\",\"button\":4},").unwrap();
    assert_eq!(c.instance, "abc");
    assert_eq!(c.button, 4);
    assert!(parse_click("{\"instance\":\"abc\",\"button\":-1}").is_none());
    assert!(parse_click("").is_none());
}

#[test]
fn button_selection_keeps_order() {
    let acts = vec![
        shell(MouseButton::Left, "1"),
        ClickAction::Function(MouseButton::Right, "f".to_string()),
        shell(MouseButton::Left, "2"),
    ];
    let r = select_button(&acts, 1);
    assert_eq!(r.len(), 2);
    assert!(matches!(&r[1], ClickAction::ShellCommand(_, c) if c == "2"));
    assert!(select_button(&acts, 5).is_empty());
}

#[test]
fn button_codes() {
    assert_eq!(MouseButton::Left.to_number(), 1);
    assert_eq!(MouseButton::Middle.to_number(), 2);
    assert_eq!(MouseButton::Right.to_number(), 3);
    assert_eq!(MouseButton::ScrollUp.to_number(), 4);
    assert_eq!(MouseButton::ScrollDown.to_number(), 5);
    assert_eq!(MouseButton::ScrollDown.code_string(), "5");
}

#[test]
fn header_lines() {
    assert_eq!(protocol_header(), "{\"version\":1,\"click_events\":true}\n[\n");
}

#[test]
fn markup_sequences_concatenate() {
    let mut d = Dzen2Formatter::new();
    assert_eq!(d.format_all(&[text("a^"), text("b")]), "a^^b");
    let mut l = LemonbarFormatter::new_noescape();
    assert_eq!(l.format_all(&[text("5%"), Format::Align(Alignment::Center, Box::new(text("c")))]), "5%%{c}c");
    assert_eq!(l.format_all(&[]), "");
}

#[test]
fn backends_behind_the_trait() {
    let mut backends: Vec<Box<dyn Formatter>> = vec![
        Box::new(Dzen2Formatter::new()),
        Box::new(LemonbarFormatter::new()),
        Box::new(I3BarFormatter::new()),
    ];
    let tree = text("x");
    let out: Vec<String> = backends.iter_mut().map(|b| b.format(&tree)).collect();
    assert_eq!(out, vec!["x".to_string(), "x".to_string(), "[{\"full_text\":\"x\"}],".to_string()]);
    let all: Vec<String> = backends.iter_mut().map(|b| b.format_all(&[text("y"), text("z")])).collect();
    assert_eq!(all[0], "yz");
    assert_eq!(all[1], "yz");
    assert_eq!(all[2], "[{\"full_text\":\"y\"},{\"full_text\":\"z\"}],");
}

#[test]
fn i3bar_control_characters_escaped() {
    let mut f = I3BarFormatter::new();
    assert_eq!(
        f.format(&text("a\u{1}\u{1f}\\\t\r\u{8}\u{c}")),
        "[{\"full_text\":\"a\\u0001\\u001f\\\\\\t\\r\\b\\f\"}],"
    );
}

#[test]
fn i3bar_framing_commas_change_nothing() {
    let mut f = I3BarFormatter::new();
    f.format(&Format::Clickable(shell(MouseButton::Left, "c"), Box::new(text("x"))));
    let plain = f.handle_input_line("{\"instance\":\"shell:1:c\",\"button\":1}");
    let framed = f.handle_input_line(",,,{\"instance\":\"shell:1:c\",\"button\":1},,");
    assert_eq!(plain.len(), 1);
    assert_eq!(framed.len(), 1);
    assert!(parse_click(",,").is_none());
}
