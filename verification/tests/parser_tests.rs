use cheesecake::convertor::to_html;
use cheesecake::parser::{
    parse, parse_bytes, parse_embed, parse_embed_bytes, text_of, Expression, ParseError,
};

fn names(tree: &Vec<Expression>) -> Vec<String> {
    tree.iter().map(|e| format!("{:?}", e)).collect()
}

fn unknown(_id: &str) -> (String, Option<String>) {
    (String::from("unknown"), None)
}

fn emoji_path(file: &str) -> (String, Option<String>) {
    (format!("emoji/{}", file), None)
}

#[test]
fn plain_text_is_one_node() {
    let tree = parse("hello world").unwrap();
    assert_eq!(names(&tree), vec!["Text(\"hello world\")"]);
}

#[test]
fn empty_text_has_no_nodes() {
    let tree = parse("").unwrap();
    assert!(tree.is_empty());
}

#[test]
fn escaped_asterisks_stay_text() {
    let tree = parse("\\*not italic\\*").unwrap();
    assert_eq!(
        names(&tree),
        vec!["Text(\"*\")", "Text(\"not italic\")", "Text(\"*\")"]
    );
}

#[test]
fn inline_code_wins_over_bold() {
    let tree = parse("`` `inline **not bold** code` ``").unwrap();
    assert_eq!(names(&tree), vec!["InlineCode(\" `inline **not bold** code` \")"]);
}

#[test]
fn bold_holds_children() {
    let tree = parse("a **b _c_** d").unwrap();
    assert_eq!(
        names(&tree),
        vec![
            "Text(\"a \")",
            "Bold([Text(\"b \"), Italics([Text(\"c\")])])",
            "Text(\" d\")"
        ]
    );
}

#[test]
fn custom_emoji_gets_its_file_name() {
    let tree = parse("<:wave:123> <a:dance:456>").unwrap();
    assert_eq!(
        names(&tree),
        vec![
            "CustomEmoji(\"wave\", \"123.png\")",
            "Text(\" \")",
            "CustomEmoji(\"dance\", \"456.gif\")"
        ]
    );
}

#[test]
fn mentions_are_told_apart() {
    let tree = parse("<@1><@!2><@&3><#4>").unwrap();
    assert_eq!(
        names(&tree),
        vec!["User(\"1\")", "User(\"2\")", "Role(\"3\")", "Channel(\"4\")"]
    );
}

#[test]
fn digits_beyond_ascii_count_as_digits() {
    let tree = parse("<@\u{661}\u{662}>").unwrap();
    assert_eq!(names(&tree), vec!["User(\"\u{661}\u{662}\")"]);
    let tree = parse("<@\u{e9}>").unwrap();
    assert_eq!(names(&tree), vec!["Text(\"<@\u{e9}>\")"]);
}

#[test]
fn word_characters_beyond_ascii_count_in_names() {
    let tree = parse("<:caf\u{e9}:7>").unwrap();
    assert_eq!(names(&tree), vec!["CustomEmoji(\"caf\u{e9}\", \"7.png\")"]);
    let tree = parse("<:a\u{2014}b:7>").unwrap();
    assert_eq!(names(&tree).len(), 1);
    assert!(matches!(tree[0], Expression::Text(_)));
}

#[test]
fn bare_link_stops_before_trailing_punctuation() {
    let tree = parse("see https://example.com/a?b=1, ok").unwrap();
    assert_eq!(
        names(&tree),
        vec![
            "Text(\"see \")",
            "Hyperlink(\"https://example.com/a?b=1\", \"https://example.com/a?b=1\")",
            "Text(\", ok\")"
        ]
    );
}

#[test]
fn angle_link_drops_its_brackets() {
    let tree = parse("<ftp://host/file>").unwrap();
    assert_eq!(names(&tree), vec!["Hyperlink(\"ftp://host/file\", \"ftp://host/file\")"]);
}

#[test]
fn labelled_link_needs_embed_mode() {
    let tree = parse_embed("[docs](http://d.io)").unwrap();
    assert_eq!(names(&tree), vec!["Hyperlink(\"docs\", \"http://d.io\")"]);
    let tree = parse("[docs](http://d.io)").unwrap();
    assert_eq!(
        names(&tree),
        vec!["Text(\"[docs](\")", "Hyperlink(\"http://d.io\", \"http://d.io\")", "Text(\")\")"]
    );
}

#[test]
fn blockquote_runs_to_the_end_of_the_line() {
    let tree = parse("> quoted *x*\nafter").unwrap();
    assert_eq!(
        names(&tree),
        vec!["Blockquote([Text(\"quoted \"), Italics([Text(\"x\")])])", "Text(\"after\")"]
    );
    let tree = parse("> to the end").unwrap();
    assert_eq!(names(&tree), vec!["Blockquote([Text(\"to the end\")])"]);
}

#[test]
fn multiline_code_keeps_its_text() {
    let tree = parse("```let x = **1**;```").unwrap();
    assert_eq!(names(&tree), vec!["MultilineCode(\"let x = **1**;\")"]);
}

#[test]
fn spoiler_underline_strikethrough() {
    let tree = parse("||s||__u__~~t~~").unwrap();
    assert_eq!(
        names(&tree),
        vec![
            "Spoiler([Text(\"s\")])",
            "Underline([Text(\"u\")])",
            "Strikethrough([Text(\"t\")])"
        ]
    );
}

#[test]
fn unmatched_bold_degrades_greedily() {
    // An opening pair of asterisks with no closing pair is taken as empty
    // italics: a known limitation of the greedy scan.
    let tree = parse("**x").unwrap();
    assert_eq!(names(&tree), vec!["Italics([])", "Text(\"x\")"]);
}

#[test]
fn shrug_is_kept_as_text() {
    let tree = parse("ok \u{af}\\_(\u{30c4})_/\u{af} fine").unwrap();
    assert_eq!(
        names(&tree),
        vec!["Text(\"ok \")", "Text(\"\u{af}\\\\_(\u{30c4})_/\u{af}\")", "Text(\" fine\")"]
    );
}

#[test]
fn escape_after_wide_characters_loses_nothing() {
    let tree = parse("\u{e9}\u{e9}\\*x").unwrap();
    assert_eq!(names(&tree), vec!["Text(\"\u{e9}\u{e9}\")", "Text(\"*\")", "Text(\"x\")"]);
}

#[test]
fn trailing_backslash_is_text() {
    let tree = parse("a\\").unwrap();
    assert_eq!(names(&tree), vec!["Text(\"a\\\\\")"]);
}

#[test]
fn text_is_escaped_and_wrapped() {
    let html = to_html(parse("a < b & c >d").unwrap(), unknown, unknown, unknown, unknown);
    assert_eq!(html, "<span>a &lt; b &amp; c &gt;d</span>");
}

#[test]
fn newlines_become_line_breaks() {
    let html = to_html(parse("a\nb").unwrap(), unknown, unknown, unknown, unknown);
    assert_eq!(html, "<span>a<br>b</span>");
}

#[test]
fn emoji_only_message_is_enlarged() {
    let html = to_html(
        parse("<:wave:123><a:dance:456> ").unwrap(),
        emoji_path,
        unknown,
        unknown,
        unknown,
    );
    assert_eq!(
        html,
        "<img src=\"emoji/123.png\" alt=\"wave\" class=\"emoji wumboji\" title=\"wave\"></img>\
         <img src=\"emoji/456.gif\" alt=\"dance\" class=\"emoji wumboji\" title=\"dance\"></img>\
         <span> </span>"
    );
}

#[test]
fn emoji_inside_bold_is_not_enlarged() {
    let html = to_html(parse("**<:wave:123>**").unwrap(), emoji_path, unknown, unknown, unknown);
    assert_eq!(
        html,
        "<strong><img src=\"emoji/123.png\" alt=\"wave\" class=\"emoji\" title=\"wave\"></img></strong>"
    );
}

#[test]
fn emoji_beside_text_is_not_enlarged() {
    let html = to_html(parse("hi <:wave:123>").unwrap(), emoji_path, unknown, unknown, unknown);
    assert_eq!(
        html,
        "<span>hi </span><img src=\"emoji/123.png\" alt=\"wave\" class=\"emoji\" title=\"wave\"></img>"
    );
}

#[test]
fn mentions_use_the_lookups() {
    let html = to_html(
        parse("<@1> <@&2> <#3>").unwrap(),
        unknown,
        |id: &str| (format!("user{}", id), None),
        |id: &str| (format!("role{}", id), Some(String::from("#ff0000"))),
        |id: &str| (format!("chan{}", id), None),
    );
    assert_eq!(
        html,
        "<span class=\"user\">@user1</span><span> </span>\
         <div class=\"role\" style=\"color: #ff0000\">@role2<span style=\"background-color: #ff0000\"></span></div>\
         <span> </span><span class=\"channel\" data-id=\"3\">#chan3</span>"
    );
}

#[test]
fn role_without_colour_is_gray() {
    let html = to_html(parse("<@&2>").unwrap(), unknown, unknown, unknown, unknown);
    assert_eq!(
        html,
        "<div class=\"role\" style=\"color: #afafaf\">@unknown<span style=\"background-color: #afafaf\"></span></div>"
    );
}

#[test]
fn containers_and_code_use_their_tags() {
    let html = to_html(
        parse("> q\n||s||__u__~~t~~*i*`c```` m ```http://x.y").unwrap(),
        unknown,
        unknown,
        unknown,
        unknown,
    );
    assert_eq!(
        html,
        "<blockquote><span>q</span></blockquote>\
         <span class=\"spoiler\"><span>s</span></span>\
         <span class=\"underline\"><span>u</span></span>\
         <span class=\"strikethrough\"><span>t</span></span>\
         <em><span>i</span></em>\
         <span class=\"inline_code\">c</span>\
         <pre class=\"multiline_code\"> m </pre>\
         <a href=\"http://x.y\" target=\"_blank\">http://x.y</a>"
    );
}

#[test]
fn bytes_that_are_no_text_are_refused() {
    assert_eq!(text_of(b"caf\xc3\xa9"), Ok("caf\u{e9}"));
    assert_eq!(text_of(b"caf\xc3"), Err(ParseError::Malformed));
    assert_eq!(text_of(b"\xff"), Err(ParseError::Malformed));
    assert_eq!(text_of(b"\xed\xa0\x80"), Err(ParseError::Malformed));
    assert_eq!(text_of(b"\xc0\x80"), Err(ParseError::Malformed));
    assert!(matches!(parse_bytes(b"**a\xfe**"), Err(ParseError::Malformed)));
    assert!(matches!(parse_embed_bytes(b"\x80"), Err(ParseError::Malformed)));
}

#[test]
fn bytes_that_are_text_are_parsed_as_the_text() {
    let tree = parse_bytes("**\u{30c4}** <@1>".as_bytes()).unwrap();
    assert_eq!(names(&tree), vec!["Bold([Text(\"\u{30c4}\")])", "Text(\" \")", "User(\"1\")"]);
    let tree = parse_embed_bytes(b"[a](http://b.c)").unwrap();
    assert_eq!(names(&tree), vec!["Hyperlink(\"a\", \"http://b.c\")"]);
    assert!(parse_bytes(b"").unwrap().is_empty());
}

#[test]
fn quotation_begins_a_line() {
    let tree = parse("a > b").unwrap();
    assert_eq!(names(&tree), vec!["Text(\"a > b\")"]);
    let tree = parse("a\n> b\n> c").unwrap();
    assert_eq!(
        names(&tree),
        vec!["Text(\"a\\n\")", "Blockquote([Text(\"b\")])", "Blockquote([Text(\"c\")])"]
    );
    let tree = parse("**> b**").unwrap();
    assert_eq!(names(&tree), vec!["Bold([Text(\"> b\")])"]);
    let tree = parse("**x\n> b**").unwrap();
    assert_eq!(names(&tree), vec!["Bold([Text(\"x\\n\"), Blockquote([Text(\"b\")])])"]);
    let tree = parse("> > b").unwrap();
    assert_eq!(names(&tree), vec!["Blockquote([Text(\"> b\")])"]);
}
