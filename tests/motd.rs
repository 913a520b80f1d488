use sleeping_starter::codes::{CodeToHex, Extras};
use sleeping_starter::helper::{get_motd, MotdOutput, MotdOutputType};
use sleeping_starter::json::{json_render, json_to_html, text_to_json, Json};
use sleeping_starter::markup::{clean_tags, html_string_formatting, scan, text_to_html, TextRun};
use sleeping_starter::settings::default_settings;

const BOLD: &str = "font-weight: bold;";
const RESET: &str = "color: inherit;text-decoration: none !important;font-weight:normal!important;font-style: normal!important;";

fn s(t: &str) -> String {
    t.to_string()
}

fn str_value(t: &str) -> Json {
    Json::Str(s(t))
}

fn object(fields: Vec<(&str, Json)>) -> Json {
    Json::Object(fields.into_iter().map(|(k, v)| (s(k), v)).collect())
}

fn same(a: &Json, b: &Json) -> bool {
    format!("{:?}", a) == format!("{:?}", b)
}

fn run(text: &str, color: Option<CodeToHex>, style: Option<Extras>) -> TextRun {
    TextRun { text: s(text), color, style }
}

#[test]
fn green_hello_in_all_three_forms() {
    let input = s("§aHello");
    assert_eq!(clean_tags(&input), "Hello");
    assert_eq!(text_to_html(&input), "<span style=\"color:#55FF55;\">Hello</span>");
    let expected = object(vec![
        ("text", str_value("")),
        (
            "extra",
            Json::Array(vec![object(vec![("text", str_value("Hello")), ("color", str_value("#55FF55"))])]),
        ),
    ]);
    assert!(same(&text_to_json(&input), &expected));
}

#[test]
fn less_than_is_escaped() {
    assert_eq!(text_to_html(&s("A<B")), "A&lt;B");
}

#[test]
fn bold_then_reset_keeps_no_colour() {
    let input = s("§lBold §rNormal");
    let runs = scan(&input);
    assert_eq!(runs, vec![run("Bold ", None, Some(Extras::L)), run("Normal", None, Some(Extras::R))]);
    assert_eq!(
        text_to_html(&input),
        format!("<span style=\"{}\">Bold </span><span style=\"{}\">Normal</span>", BOLD, RESET)
    );
    let expected = object(vec![
        ("text", str_value("")),
        (
            "extra",
            Json::Array(vec![
                object(vec![("text", str_value("Bold ")), (BOLD, Json::Bool(true))]),
                object(vec![("text", str_value("Normal")), (RESET, Json::Bool(true))]),
            ]),
        ),
    ]);
    assert!(same(&text_to_json(&input), &expected));
}

#[test]
fn reset_leaves_the_colour_set() {
    let runs = scan(&s("§cred§rplain"));
    assert_eq!(
        runs,
        vec![run("red", Some(CodeToHex::Red), None), run("plain", Some(CodeToHex::Red), Some(Extras::R))]
    );
}

#[test]
fn empty_input_gives_empty_outputs() {
    let input = s("");
    assert_eq!(clean_tags(&input), "");
    assert_eq!(text_to_html(&input), "");
    let expected = object(vec![("text", str_value("")), ("extra", Json::Array(vec![]))]);
    assert!(same(&text_to_json(&input), &expected));
    assert!(scan(&input).is_empty());
}

#[test]
fn colours_persist_over_runs_until_replaced() {
    let runs = scan(&s("§4AA§9BB"));
    assert_eq!(runs, vec![run("AA", Some(CodeToHex::DarkRed), None), run("BB", Some(CodeToHex::Blue), None)]);
    assert_eq!(
        text_to_html(&s("§4AA§9BB")),
        "<span style=\"color:#AA0000;\">AA</span><span style=\"color:#5555FF;\">BB</span>"
    );
}

#[test]
fn colour_and_style_are_set_apart() {
    let runs = scan(&s("§6§lA§oB§2C"));
    assert_eq!(
        runs,
        vec![
            run("A", Some(CodeToHex::Gold), Some(Extras::L)),
            run("B", Some(CodeToHex::Gold), Some(Extras::O)),
            run("C", Some(CodeToHex::DarkGreen), Some(Extras::O)),
        ]
    );
    assert_eq!(
        text_to_html(&s("§6§lA")),
        "<span style=\"color:#FFAA00;font-weight: bold;\">A</span>"
    );
}

#[test]
fn text_without_codes_is_kept() {
    let input = s("Hello <world> & \"friends\"");
    assert_eq!(clean_tags(&input), input);
    assert_eq!(text_to_html(&input), "Hello &lt;world&gt; &amp; &quot;friends&quot;");
    let expected = object(vec![
        ("text", str_value("")),
        ("extra", Json::Array(vec![object(vec![("text", Json::Str(input.clone()))])])),
    ]);
    assert!(same(&text_to_json(&input), &expected));
}

#[test]
fn upper_case_selectors_count() {
    let input = s("§Lbig§Aok");
    assert_eq!(clean_tags(&input), "bigok");
    assert_eq!(
        scan(&input),
        vec![run("big", None, Some(Extras::L)), run("ok", Some(CodeToHex::Green), Some(Extras::L))]
    );
}

#[test]
fn marker_without_selector_is_text() {
    let input = s("50§ off §z§");
    assert_eq!(clean_tags(&input), "50§ off §z§");
    assert_eq!(text_to_html(&input), "50§ off §z§");
}

#[test]
fn plain_text_has_no_code_left() {
    let out = clean_tags(&s("§1a§2b§§x§kc"));
    assert_eq!(out, "ab§§xc");
    assert_eq!(clean_tags(&out), out);
}

#[test]
fn stripping_can_join_a_marker_to_a_selector() {
    let out = clean_tags(&s("§§aa"));
    assert_eq!(out, "§a");
    assert_eq!(clean_tags(&out), "");
}

#[test]
fn plain_text_twice_is_plain_text_once() {
    for t in ["", "§aHello", "x§ly§rz", "§lBold §rNormal", "a\nb§9c"] {
        let once = clean_tags(&s(t));
        assert_eq!(clean_tags(&once), once);
    }
}

#[test]
fn line_breaks_and_quotes_in_html() {
    assert_eq!(html_string_formatting(&s("a\nb'c\"d>e&f")), "a<br/>b&#39;c&quot;d&gt;e&amp;f");
    assert_eq!(clean_tags(&s("a\n§lb")), "a\nb");
    assert_eq!(text_to_html(&s("§ca\nb")), "<span style=\"color:#FF5555;\">a<br/>b</span>");
}

#[test]
fn style_table_by_symbol_and_code() {
    assert_eq!(Extras::get_from_symbol(&s("§l")), BOLD);
    assert_eq!(Extras::get_from_symbol(&s("§r")), RESET);
    assert_eq!(Extras::get_from_symbol(&s("§L")), "");
    assert_eq!(Extras::get_from_symbol(&s("§a")), "");
    assert_eq!(Extras::get_from_code(&s("o")), "font-style: italic;");
    assert_eq!(Extras::get_from_code(&s("m")), "text-decoration: line-through;");
    assert_eq!(Extras::get_from_code(&s("x")), "");
    assert_eq!(Extras::N.get(), "text-decoration: underline;");
    assert_eq!(Extras::K.get(), "obfuscated;");
}

#[test]
fn colour_table_by_symbol_and_code() {
    assert_eq!(CodeToHex::get_from_symbol(&s("§e")), "#FFFF55");
    assert_eq!(CodeToHex::get_from_symbol(&s("§0")), "#000000");
    assert_eq!(CodeToHex::get_from_symbol(&s("§x")), "#FFFFFF");
    assert_eq!(CodeToHex::get_from_symbol(&s("e")), "#FFFFFF");
    assert_eq!(CodeToHex::get_from_code(&12), "#FF5555");
    assert_eq!(CodeToHex::get_from_code(&8), "#555555");
    assert_eq!(CodeToHex::get_from_code(&99), "#FFFFFF");
    assert_eq!(CodeToHex::LightPurple.get(), "#FF55FF");
}

#[test]
fn motd_in_each_form() {
    let mut settings = default_settings();
    settings.serverName = s("§aHi §lthere");
    match get_motd(&settings, MotdOutputType::PlainText) {
        Some(MotdOutput::PlainText(t)) => assert_eq!(t, "Hi there"),
        other => panic!("unexpected {:?}", other),
    }
    match get_motd(&settings, MotdOutputType::HTML) {
        Some(MotdOutput::HTML(h)) => assert_eq!(
            h,
            format!("<span style=\"color:#55FF55;\">Hi </span><span style=\"color:#55FF55;{}\">there</span>", BOLD)
        ),
        other => panic!("unexpected {:?}", other),
    }
    match get_motd(&settings, MotdOutputType::JSON) {
        Some(MotdOutput::JSON(j)) => assert!(same(&j, &text_to_json(&settings.serverName))),
        other => panic!("unexpected {:?}", other),
    }
}

#[test]
fn tree_renders_fields_in_order() {
    let tree = object(vec![
        ("c", Json::Null),
        ("text", str_value("Hi")),
        ("§l", Json::Bool(true)),
        ("extra", Json::Number(42)),
        ("nested", object(vec![("text", str_value("A<B"))])),
        ("zz", Json::Null),
        ("flag", Json::Bool(true)),
    ]);
    let red = "<span style=\"color:#FF5555;\">";
    let bold = format!("<span style=\"{}\">", BOLD);
    let expected = format!(
        "{red}Hi</span>{red}{bold}42</span></span>{red}{bold}A&lt;B</span></span>{red}</span>",
        red = red,
        bold = bold
    );
    assert_eq!(json_to_html(&tree), expected);
}

#[test]
fn tree_strings_are_read_as_text_with_codes() {
    let tree = object(vec![("text", str_value("§aHello"))]);
    assert_eq!(json_to_html(&tree), "<span style=\"color:#55FF55;\">Hello</span>");
}

#[test]
fn tree_one_letter_keys_pick_colours() {
    let tree = object(vec![("A", Json::Null), ("text", str_value("x")), ("?", Json::Null), ("text", str_value("y"))]);
    assert_eq!(
        json_to_html(&tree),
        "<span style=\"color:#55FF55;\">x</span><span style=\"color:#FFFFFF;\">y</span>"
    );
}

#[test]
fn non_object_trees_render_as_nothing() {
    assert_eq!(json_to_html(&str_value("§aHello")), "");
    assert_eq!(json_to_html(&Json::Array(vec![object(vec![("text", str_value("x"))])])), "");
    assert_eq!(json_to_html(&Json::Number(7)), "");
}

#[test]
fn encoded_tree_renders_its_text_field_only() {
    let tree = text_to_json(&s("§aHello"));
    assert_eq!(json_to_html(&tree), "");
}

#[test]
fn plain_text_is_the_runs_texts() {
    for t in ["", "§aHello", "§4AA§9BB", "a§§b§lc§", "§§aa", "x\n§ry"] {
        let joined: String = scan(&s(t)).into_iter().map(|r| r.text).collect();
        assert_eq!(clean_tags(&s(t)), joined);
    }
}

#[test]
fn render_is_json_to_html() {
    let tree = object(vec![("e", Json::Null), ("text", str_value("§lx"))]);
    assert_eq!(json_render(&tree), "<span style=\"color:#FFFF55;\"><span style=\"font-weight: bold;\">x</span></span>");
    assert_eq!(json_render(&tree), json_to_html(&tree));
}
